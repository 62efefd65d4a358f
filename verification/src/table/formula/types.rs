//! The value model of the formula language: spans, scalars and matrices,
//! references, assignment targets and statements.

use vstd::prelude::*;
use crate::decimal::{Dec, dec_valid};

verus! {

/// A half-open byte range locating a token or expression in the formula
/// source text; used only for error display.
#[derive(Debug, Clone, Copy, PartialEq, Eq, Structural)]
pub struct Span {
    pub start: usize,
    pub end: usize,
}

impl Span {
    pub fn new(start: usize, end: usize) -> (r: Span)
        ensures
            r == (Span { start, end }),
    {
        Span { start, end }
    }

    pub fn single(pos: usize) -> (r: Span)
        requires
            pos < usize::MAX,
        ensures
            r == (Span { start: pos, end: (pos + 1) as usize }),
    {
        Span { start: pos, end: pos + 1 }
    }

    /// The union of two spans.
    pub fn merge(&self, other: &Span) -> (r: Span)
        ensures
            r == spec_merge(*self, *other),
    {
        Span {
            start: if self.start <= other.start {
                self.start
            } else {
                other.start
            },
            end: if self.end >= other.end {
                self.end
            } else {
                other.end
            },
        }
    }
}

pub open spec fn spec_merge(a: Span, b: Span) -> Span {
    Span {
        start: if a.start <= b.start {
            a.start
        } else {
            b.start
        },
        end: if a.end >= b.end {
            a.end
        } else {
            b.end
        },
    }
}

/// Markdown tables have a header row and a separator row before the data
/// rows, so the first data row sits at grid index 2.

/// Converts a 1-based formula row number to the grid row index.
pub fn formula_row_to_table_index(row_num: usize) -> (r: usize)
    requires
        1 <= row_num,
        row_num + 1 <= usize::MAX,
    ensures
        r == row_num + 1,
{
    2 + (row_num - 1)
}

/// The letter naming a column: 0 is `A`, 1 is `B`, and so on.
pub fn col_index_to_letter(col: usize) -> (r: Vec<char>)
    requires
        col <= 25,
    ensures
        r@ == seq![spec_col_letter(col as int)],
{
    let c: char = ((65 + col as u8)) as char;
    let mut v: Vec<char> = Vec::new();
    v.push(c);
    proof {
        assert(v@ =~= seq![spec_col_letter(col as int)]);
    }
    v
}

pub open spec fn spec_col_letter(col: int) -> char {
    (65 + col) as char
}

/// A runtime value of the formula language: one decimal, or a row-major
/// matrix of decimals.
#[derive(Debug, Clone, PartialEq)]
pub enum Value {
    Scalar(Dec),
    Matrix { rows: usize, cols: usize, data: Vec<Dec> },
}

/// The mathematical model of a [`Value`].
pub ghost enum SpecVal {
    Scalar(Dec),
    Matrix { rows: nat, cols: nat, data: Seq<Dec> },
}

impl View for Value {
    type V = SpecVal;

    open spec fn view(&self) -> SpecVal {
        match self {
            Value::Scalar(d) => SpecVal::Scalar(*d),
            Value::Matrix { rows, cols, data } => SpecVal::Matrix {
                rows: *rows as nat,
                cols: *cols as nat,
                data: data@,
            },
        }
    }
}

/// Every decimal in the sequence is representable.
pub open spec fn decs_valid(s: Seq<Dec>) -> bool {
    forall|i: int| 0 <= i < s.len() ==> dec_valid(#[trigger] s[i])
}

/// A well-formed value: a matrix holds exactly `rows * cols` entries, and
/// every entry is representable.
pub open spec fn sv_wf(v: SpecVal) -> bool {
    match v {
        SpecVal::Scalar(d) => dec_valid(d),
        SpecVal::Matrix { rows, cols, data } => data.len() == rows * cols && decs_valid(data),
    }
}

/// The transposed entries of a `rows x cols` row-major matrix.
pub open spec fn spec_transpose(rows: nat, cols: nat, data: Seq<Dec>) -> Seq<Dec> {
    Seq::new(cols * rows, |k: int| data[(k % (rows as int)) * cols + k / (rows as int)])
}

impl Value {
    /// A `1 x n` matrix.
    pub fn row_vector(data: Vec<Dec>) -> (r: Value)
        ensures
            r@ == (SpecVal::Matrix { rows: 1nat, cols: data@.len(), data: data@ }),
    {
        let cols = data.len();
        Value::Matrix { rows: 1, cols, data }
    }

    /// An `n x 1` matrix.
    pub fn column_vector(data: Vec<Dec>) -> (r: Value)
        ensures
            r@ == (SpecVal::Matrix { rows: data@.len(), cols: 1nat, data: data@ }),
    {
        let rows = data.len();
        Value::Matrix { rows, cols: 1, data }
    }

    /// Swaps the axes of a matrix; a scalar cannot be transposed.
    pub fn transpose(self) -> (r: Option<Value>)
        requires
            sv_wf(self@),
        ensures
            self@ is Scalar ==> r is None,
            self@ is Matrix ==> (r matches Some(t) && t@ == (SpecVal::Matrix {
                rows: self@->Matrix_cols,
                cols: self@->Matrix_rows,
                data: spec_transpose(self@->Matrix_rows, self@->Matrix_cols, self@->Matrix_data),
            })),
            r is Some ==> sv_wf(r->0@),
    {
        match self {
            Value::Scalar(_) => None,
            Value::Matrix { rows, cols, data } => {
                let ghost target = spec_transpose(rows as nat, cols as nat, data@);
                let total: usize = data.len();
                let mut out: Vec<Dec> = Vec::new();
                let mut col: usize = 0;
                proof {
                    assert(out@ =~= target.take(0));
                    assert(cols * rows == rows * cols) by (nonlinear_arith);
                }
                while col < cols
                    invariant
                        0 <= col <= cols,
                        data@.len() == rows * cols,
                        decs_valid(data@),
                        target == spec_transpose(rows as nat, cols as nat, data@),
                        out@ == target.take((col * rows) as int),
                        col * rows <= cols * rows,
                        cols * rows == rows * cols,
                        total == rows * cols,
                    decreases cols - col,
                {
                    let mut row: usize = 0;
                    proof {
                        assert((col * rows) + rows <= cols * rows) by (nonlinear_arith)
                            requires
                                col < cols,
                                rows >= 0,
                        ;
                    }
                    while row < rows
                        invariant
                            0 <= row <= rows,
                            0 <= col < cols,
                            data@.len() == rows * cols,
                            decs_valid(data@),
                            target == spec_transpose(rows as nat, cols as nat, data@),
                            out@ == target.take((col * rows + row) as int),
                            col * rows + rows <= cols * rows,
                            cols * rows == rows * cols,
                            total == rows * cols,
                        decreases rows - row,
                    {
                        proof {
                            assert(col * rows + row < col * rows + rows);
                        }
                        let k: usize = col * rows + row;
                        proof {
                            assert(row * cols + col < rows * cols) by (nonlinear_arith)
                                requires
                                    0 <= row < rows,
                                    0 <= col < cols,
                            ;
                            assert((k as int) % (rows as int) == row as int && (k as int) / (
                            rows as int) == col as int) by (nonlinear_arith)
                                requires
                                    k == col * rows + row,
                                    0 <= (row as int) < rows as int,
                                    0 <= col as int,
                            ;
                            assert(target[k as int] == data@[(row * cols + col) as int]);
                        }
                        out.push(data[row * cols + col]);
                        proof {
                            assert(out@ =~= target.take(k + 1));
                        }
                        row = row + 1;
                    }
                    proof {
                        assert((col + 1) * rows == col * rows + rows) by (nonlinear_arith);
                    }
                    col = col + 1;
                }
                proof {
                    assert(out@ =~= target);
                    assert forall|k: int| 0 <= k < target.len() implies dec_valid(
                        #[trigger] target[k],
                    ) by {
                        if rows > 0 {
                            let idx = (k % (rows as int)) * cols + k / (rows as int);
                            assert(0 <= idx < rows * cols) by (nonlinear_arith)
                                requires
                                    0 <= k < cols * rows,
                                    rows > 0,
                                    idx == (k % (rows as int)) * cols + k / (rows as int),
                            ;
                            assert(dec_valid(data@[idx]));
                        }
                    }
                }
                Some(Value::Matrix { rows: cols, cols: rows, data: out })
            },
        }
    }

    /// Extracts the number when the value is a scalar or a `1 x 1` matrix.
    pub fn as_scalar(&self) -> (r: Option<Dec>)
        ensures
            r == spec_as_scalar(self@),
    {
        match self {
            Value::Scalar(d) => Some(*d),
            Value::Matrix { rows: 1, cols: 1, data } => {
                if data.len() >= 1 {
                    Some(data[0])
                } else {
                    None
                }
            },
            _ => None,
        }
    }

    /// Is this an `n x 1` matrix?
    pub fn is_column_vector(&self) -> (r: bool)
        ensures
            r == (self@ is Matrix && self@->Matrix_cols == 1),
    {
        match self {
            Value::Matrix { cols: 1, .. } => true,
            _ => false,
        }
    }

    /// Numeric equality: same shape and equal numbers at every position,
    /// regardless of how each number is scaled.
    pub fn num_eq(&self, other: &Value) -> (r: bool)
        requires
            sv_wf(self@),
            sv_wf(other@),
        ensures
            r == sv_num_eq(self@, other@),
    {
        match self {
            Value::Scalar(a) => match other {
                Value::Scalar(b) => crate::decimal::dec_eq(a, b),
                _ => false,
            },
            Value::Matrix { rows: r1, cols: c1, data: d1 } => match other {
                Value::Matrix { rows: r2, cols: c2, data: d2 } => {
                    if *r1 != *r2 || *c1 != *c2 || d1.len() != d2.len() {
                        return false;
                    }
                    let mut i: usize = 0;
                    while i < d1.len()
                        invariant
                            0 <= i <= d1@.len(),
                            d1@.len() == d2@.len(),
                            decs_valid(d1@),
                            decs_valid(d2@),
                            *r1 == *r2,
                            *c1 == *c2,
                            self@ == (SpecVal::Matrix {
                                rows: *r1 as nat,
                                cols: *c1 as nat,
                                data: d1@,
                            }),
                            other@ == (SpecVal::Matrix {
                                rows: *r2 as nat,
                                cols: *c2 as nat,
                                data: d2@,
                            }),
                            forall|j: int|
                                0 <= j < i ==> crate::decimal::spec_dec_eq(
                                    #[trigger] d1@[j],
                                    d2@[j],
                                ),
                        decreases d1@.len() - i,
                    {
                        if !crate::decimal::dec_eq(&d1[i], &d2[i]) {
                            proof {
                                assert(!crate::decimal::spec_dec_eq(d1@[i as int], d2@[i as int]));
                            }
                            return false;
                        }
                        i = i + 1;
                    }
                    true
                },
                _ => false,
            },
        }
    }
}

pub open spec fn spec_as_scalar(v: SpecVal) -> Option<Dec> {
    match v {
        SpecVal::Scalar(d) => Some(d),
        SpecVal::Matrix { rows, cols, data } => {
            if rows == 1 && cols == 1 && data.len() >= 1 {
                Some(data[0])
            } else {
                None
            }
        },
    }
}

/// Numeric equality of two values.
pub open spec fn sv_num_eq(a: SpecVal, b: SpecVal) -> bool {
    match (a, b) {
        (SpecVal::Scalar(x), SpecVal::Scalar(y)) => crate::decimal::spec_dec_eq(x, y),
        (
            SpecVal::Matrix { rows: r1, cols: c1, data: d1 },
            SpecVal::Matrix { rows: r2, cols: c2, data: d2 },
        ) => r1 == r2 && c1 == c2 && d1.len() == d2.len() && forall|j: int|
            0 <= j < d1.len() ==> crate::decimal::spec_dec_eq(#[trigger] d1[j], d2[j]),
        _ => false,
    }
}

/// Transposing twice gives back the original matrix: same shape, same
/// entries.
pub proof fn lemma_transpose_involution(rows: nat, cols: nat, data: Seq<Dec>)
    requires
        data.len() == rows * cols,
    ensures
        spec_transpose(cols, rows, spec_transpose(rows, cols, data)) == data,
{
    let t1 = spec_transpose(rows, cols, data);
    let t2 = spec_transpose(cols, rows, t1);
    assert(t1.len() == cols * rows);
    assert(t2.len() == rows * cols) by (nonlinear_arith)
        requires
            t2.len() == cols * rows,
    ;
    assert forall|k: int| 0 <= k < rows * cols implies t2[k] == data[k] by {
        let j = (k % (cols as int)) * rows + k / (cols as int);
        assert(0 <= j < cols * rows && j % (rows as int) == k / (cols as int) && j / (rows as int)
            == k % (cols as int)) by (nonlinear_arith)
            requires
                0 <= k < rows * cols,
                j == (k % (cols as int)) * rows + k / (cols as int),
                cols > 0,
                rows > 0,
        ;
        assert(t2[k] == t1[j]);
        assert(t1[j] == data[(j % (rows as int)) * cols + j / (rows as int)]);
        assert((k / (cols as int)) * cols + k % (cols as int) == k) by (nonlinear_arith)
            requires
                cols > 0,
        ;
    }
    assert(t2 =~= data);
}

/// A still-unresolved reference to part of the grid.
#[derive(Debug, Clone, PartialEq, Eq, Structural)]
pub enum CellReference {
    Scalar { row: usize, col: usize },
    ColumnVector { col: usize },
    RowVector { row: usize },
    Range { start_row: usize, start_col: usize, end_row: usize, end_col: usize },
    ColumnRange { start_col: usize, end_col: usize },
    RowRange { start_row: usize, end_row: usize },
}

/// The write target on the left side of a formula.
#[derive(Debug, Clone, PartialEq, Eq, Structural)]
pub enum Assignment {
    Scalar { row: usize, col: usize },
    ColumnVector { col: usize },
    RowVector { row: usize },
    Range { start_row: usize, start_col: usize, end_row: usize, end_col: usize },
    ColumnRange { start_col: usize, end_col: usize },
    RowRange { start_row: usize, end_row: usize },
}

/// One statement of a formula: a variable binding or a cell assignment.
#[derive(Debug, Clone, PartialEq)]
pub enum Statement {
    Let { name: String, span: Span },
    Assignment(Assignment),
}

impl Statement {
    pub fn let_statement(name: String, span: Span) -> (r: Statement)
        ensures
            r == (Statement::Let { name, span }),
    {
        Statement::Let { name, span }
    }

    pub fn assignment(assignment: Assignment) -> (r: Statement)
        ensures
            r == Statement::Assignment(assignment),
    {
        Statement::Assignment(assignment)
    }
}

} // verus!
