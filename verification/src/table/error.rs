//! The closed error taxonomy of the formula engine, with exact message
//! rendering.

use vstd::prelude::*;
use crate::strutil::{append_chars, chars_string, repeat_char, spec_nat_str, str_chars,
    usize_to_chars};
use crate::table::formula::types::Span;

verus! {

/// Everything that can go wrong while parsing or evaluating one formula.
#[derive(Debug, Clone, PartialEq)]
pub enum FormulaError {
    ParseError(String),
    InvalidSyntax(String),
    EmptyExpression,
    InvalidToken { token: String, context: String },
    CellOutOfBounds { cell: String, reason: String },
    ColumnOutOfBounds { column: String, reason: String },
    RowOutOfBounds { row: usize, reason: String },
    DimensionMismatch { operation: String, expected: String, actual: String },
    TypeError { operation: String, operand_type: String },
    DivisionByZero,
    UnknownFunction { name: String, supported: String },
    FunctionError { function: String, reason: String },
    EvalError { expression: String, reason: String },
    UnexpectedToken { token: String, position: usize },
    UnmatchedParenthesis { paren: char, paren_type: String },
    InvalidAssignment { reason: String },
    TransposeError { value_type: String },
    MatrixMultiplicationError { reason: String },
    RuntimeError(String),
}

/// The mathematical model of a [`FormulaError`].
pub ghost enum SpecErr {
    ParseError(Seq<char>),
    InvalidSyntax(Seq<char>),
    EmptyExpression,
    InvalidToken { token: Seq<char>, context: Seq<char> },
    CellOutOfBounds { cell: Seq<char>, reason: Seq<char> },
    ColumnOutOfBounds { column: Seq<char>, reason: Seq<char> },
    RowOutOfBounds { row: nat, reason: Seq<char> },
    DimensionMismatch { operation: Seq<char>, expected: Seq<char>, actual: Seq<char> },
    TypeError { operation: Seq<char>, operand_type: Seq<char> },
    DivisionByZero,
    UnknownFunction { name: Seq<char>, supported: Seq<char> },
    FunctionError { function: Seq<char>, reason: Seq<char> },
    EvalError { expression: Seq<char>, reason: Seq<char> },
    UnexpectedToken { token: Seq<char>, position: nat },
    UnmatchedParenthesis { paren: char, paren_type: Seq<char> },
    InvalidAssignment { reason: Seq<char> },
    TransposeError { value_type: Seq<char> },
    MatrixMultiplicationError { reason: Seq<char> },
    RuntimeError(Seq<char>),
}

impl View for FormulaError {
    type V = SpecErr;

    open spec fn view(&self) -> SpecErr {
        match self {
            FormulaError::ParseError(s) => SpecErr::ParseError(s@),
            FormulaError::InvalidSyntax(s) => SpecErr::InvalidSyntax(s@),
            FormulaError::EmptyExpression => SpecErr::EmptyExpression,
            FormulaError::InvalidToken { token, context } => SpecErr::InvalidToken {
                token: token@,
                context: context@,
            },
            FormulaError::CellOutOfBounds { cell, reason } => SpecErr::CellOutOfBounds {
                cell: cell@,
                reason: reason@,
            },
            FormulaError::ColumnOutOfBounds { column, reason } => SpecErr::ColumnOutOfBounds {
                column: column@,
                reason: reason@,
            },
            FormulaError::RowOutOfBounds { row, reason } => SpecErr::RowOutOfBounds {
                row: *row as nat,
                reason: reason@,
            },
            FormulaError::DimensionMismatch { operation, expected, actual } => {
                SpecErr::DimensionMismatch {
                    operation: operation@,
                    expected: expected@,
                    actual: actual@,
                }
            },
            FormulaError::TypeError { operation, operand_type } => SpecErr::TypeError {
                operation: operation@,
                operand_type: operand_type@,
            },
            FormulaError::DivisionByZero => SpecErr::DivisionByZero,
            FormulaError::UnknownFunction { name, supported } => SpecErr::UnknownFunction {
                name: name@,
                supported: supported@,
            },
            FormulaError::FunctionError { function, reason } => SpecErr::FunctionError {
                function: function@,
                reason: reason@,
            },
            FormulaError::EvalError { expression, reason } => SpecErr::EvalError {
                expression: expression@,
                reason: reason@,
            },
            FormulaError::UnexpectedToken { token, position } => SpecErr::UnexpectedToken {
                token: token@,
                position: *position as nat,
            },
            FormulaError::UnmatchedParenthesis { paren, paren_type } => {
                SpecErr::UnmatchedParenthesis { paren: *paren, paren_type: paren_type@ }
            },
            FormulaError::InvalidAssignment { reason } => SpecErr::InvalidAssignment {
                reason: reason@,
            },
            FormulaError::TransposeError { value_type } => SpecErr::TransposeError {
                value_type: value_type@,
            },
            FormulaError::MatrixMultiplicationError { reason } => {
                SpecErr::MatrixMultiplicationError { reason: reason@ }
            },
            FormulaError::RuntimeError(s) => SpecErr::RuntimeError(s@),
        }
    }
}

/// The rendered message of each error, exactly as displayed.
pub open spec fn spec_err_message(e: SpecErr) -> Seq<char> {
    match e {
        SpecErr::ParseError(s) => "Failed to parse formula: "@ + s,
        SpecErr::InvalidSyntax(s) => "Invalid formula syntax: "@ + s,
        SpecErr::EmptyExpression => "Empty expression"@,
        SpecErr::InvalidToken { token, context } => "Invalid token: '"@ + token + "' "@ + context,
        SpecErr::CellOutOfBounds { cell, reason } => "cell "@ + cell + " is out of bounds: "@
            + reason,
        SpecErr::ColumnOutOfBounds { column, reason } => "column vector "@ + column
            + "_ is out of bounds: "@ + reason,
        SpecErr::RowOutOfBounds { row, reason } => "row vector _"@ + spec_nat_str(row)
            + " is out of bounds: "@ + reason,
        SpecErr::DimensionMismatch { operation, expected, actual } => "matrix operation failed: "@
            + operation + " requires "@ + expected + ", but got "@ + actual,
        SpecErr::TypeError { operation, operand_type } => "type error: "@ + operation
            + " cannot be applied to "@ + operand_type,
        SpecErr::DivisionByZero => "division by zero"@,
        SpecErr::UnknownFunction { name, supported } => "unknown function: '"@ + name
            + "' (supported functions: "@ + supported + ")"@,
        SpecErr::FunctionError { function, reason } => "Function '"@ + function + "' error: "@
            + reason,
        SpecErr::EvalError { expression, reason } => "Failed to evaluate expression '"@
            + expression + "': "@ + reason,
        SpecErr::UnexpectedToken { token, position } => "unexpected token: '"@ + token
            + "' at position "@ + spec_nat_str(position),
        SpecErr::UnmatchedParenthesis { paren, paren_type } => "unmatched "@ + paren_type
            + " parenthesis '"@ + seq![paren] + "'"@,
        SpecErr::InvalidAssignment { reason } => "Invalid assignment target: "@ + reason,
        SpecErr::TransposeError { value_type } => "cannot transpose "@ + value_type,
        SpecErr::MatrixMultiplicationError { reason } => "Matrix multiplication failed: "@
            + reason,
        SpecErr::RuntimeError(s) => s,
    }
}

impl FormulaError {
    pub fn cell_out_of_bounds(cell: String, reason: String) -> (r: FormulaError)
        ensures
            r@ == (SpecErr::CellOutOfBounds { cell: cell@, reason: reason@ }),
    {
        FormulaError::CellOutOfBounds { cell, reason }
    }

    pub fn column_out_of_bounds(column: String, reason: String) -> (r: FormulaError)
        ensures
            r@ == (SpecErr::ColumnOutOfBounds { column: column@, reason: reason@ }),
    {
        FormulaError::ColumnOutOfBounds { column, reason }
    }

    pub fn row_out_of_bounds(row: usize, reason: String) -> (r: FormulaError)
        ensures
            r@ == (SpecErr::RowOutOfBounds { row: row as nat, reason: reason@ }),
    {
        FormulaError::RowOutOfBounds { row, reason }
    }

    /// The message rendered for this error, exactly `spec_err_message`.
    pub fn message(&self) -> (r: String)
        ensures
            r@ == spec_err_message(self@),
    {
        let mut out: Vec<char> = Vec::new();
        match self {
            FormulaError::ParseError(s) => {
                let mut p = str_chars("Failed to parse formula: ");
                append_chars(&mut out, &p);
                let t = str_chars(s.as_str());
                append_chars(&mut out, &t);
            },
            FormulaError::InvalidSyntax(s) => {
                let p = str_chars("Invalid formula syntax: ");
                append_chars(&mut out, &p);
                let t = str_chars(s.as_str());
                append_chars(&mut out, &t);
            },
            FormulaError::EmptyExpression => {
                let p = str_chars("Empty expression");
                append_chars(&mut out, &p);
            },
            FormulaError::InvalidToken { token, context } => {
                let p = str_chars("Invalid token: '");
                append_chars(&mut out, &p);
                let t = str_chars(token.as_str());
                append_chars(&mut out, &t);
                let q = str_chars("' ");
                append_chars(&mut out, &q);
                let u = str_chars(context.as_str());
                append_chars(&mut out, &u);
            },
            FormulaError::CellOutOfBounds { cell, reason } => {
                let p = str_chars("cell ");
                append_chars(&mut out, &p);
                let t = str_chars(cell.as_str());
                append_chars(&mut out, &t);
                let q = str_chars(" is out of bounds: ");
                append_chars(&mut out, &q);
                let u = str_chars(reason.as_str());
                append_chars(&mut out, &u);
            },
            FormulaError::ColumnOutOfBounds { column, reason } => {
                let p = str_chars("column vector ");
                append_chars(&mut out, &p);
                let t = str_chars(column.as_str());
                append_chars(&mut out, &t);
                let q = str_chars("_ is out of bounds: ");
                append_chars(&mut out, &q);
                let u = str_chars(reason.as_str());
                append_chars(&mut out, &u);
            },
            FormulaError::RowOutOfBounds { row, reason } => {
                let p = str_chars("row vector _");
                append_chars(&mut out, &p);
                let t = usize_to_chars(*row);
                append_chars(&mut out, &t);
                let q = str_chars(" is out of bounds: ");
                append_chars(&mut out, &q);
                let u = str_chars(reason.as_str());
                append_chars(&mut out, &u);
            },
            FormulaError::DimensionMismatch { operation, expected, actual } => {
                let p = str_chars("matrix operation failed: ");
                append_chars(&mut out, &p);
                let t = str_chars(operation.as_str());
                append_chars(&mut out, &t);
                let q = str_chars(" requires ");
                append_chars(&mut out, &q);
                let u = str_chars(expected.as_str());
                append_chars(&mut out, &u);
                let w = str_chars(", but got ");
                append_chars(&mut out, &w);
                let x = str_chars(actual.as_str());
                append_chars(&mut out, &x);
            },
            FormulaError::TypeError { operation, operand_type } => {
                let p = str_chars("type error: ");
                append_chars(&mut out, &p);
                let t = str_chars(operation.as_str());
                append_chars(&mut out, &t);
                let q = str_chars(" cannot be applied to ");
                append_chars(&mut out, &q);
                let u = str_chars(operand_type.as_str());
                append_chars(&mut out, &u);
            },
            FormulaError::DivisionByZero => {
                let p = str_chars("division by zero");
                append_chars(&mut out, &p);
            },
            FormulaError::UnknownFunction { name, supported } => {
                let p = str_chars("unknown function: '");
                append_chars(&mut out, &p);
                let t = str_chars(name.as_str());
                append_chars(&mut out, &t);
                let q = str_chars("' (supported functions: ");
                append_chars(&mut out, &q);
                let u = str_chars(supported.as_str());
                append_chars(&mut out, &u);
                let w = str_chars(")");
                append_chars(&mut out, &w);
            },
            FormulaError::FunctionError { function, reason } => {
                let p = str_chars("Function '");
                append_chars(&mut out, &p);
                let t = str_chars(function.as_str());
                append_chars(&mut out, &t);
                let q = str_chars("' error: ");
                append_chars(&mut out, &q);
                let u = str_chars(reason.as_str());
                append_chars(&mut out, &u);
            },
            FormulaError::EvalError { expression, reason } => {
                let p = str_chars("Failed to evaluate expression '");
                append_chars(&mut out, &p);
                let t = str_chars(expression.as_str());
                append_chars(&mut out, &t);
                let q = str_chars("': ");
                append_chars(&mut out, &q);
                let u = str_chars(reason.as_str());
                append_chars(&mut out, &u);
            },
            FormulaError::UnexpectedToken { token, position } => {
                let p = str_chars("unexpected token: '");
                append_chars(&mut out, &p);
                let t = str_chars(token.as_str());
                append_chars(&mut out, &t);
                let q = str_chars("' at position ");
                append_chars(&mut out, &q);
                let u = usize_to_chars(*position);
                append_chars(&mut out, &u);
            },
            FormulaError::UnmatchedParenthesis { paren, paren_type } => {
                let p = str_chars("unmatched ");
                append_chars(&mut out, &p);
                let t = str_chars(paren_type.as_str());
                append_chars(&mut out, &t);
                let q = str_chars(" parenthesis '");
                append_chars(&mut out, &q);
                out.push(*paren);
                let u = str_chars("'");
                append_chars(&mut out, &u);
            },
            FormulaError::InvalidAssignment { reason } => {
                let p = str_chars("Invalid assignment target: ");
                append_chars(&mut out, &p);
                let t = str_chars(reason.as_str());
                append_chars(&mut out, &t);
            },
            FormulaError::TransposeError { value_type } => {
                let p = str_chars("cannot transpose ");
                append_chars(&mut out, &p);
                let t = str_chars(value_type.as_str());
                append_chars(&mut out, &t);
            },
            FormulaError::MatrixMultiplicationError { reason } => {
                let p = str_chars("Matrix multiplication failed: ");
                append_chars(&mut out, &p);
                let t = str_chars(reason.as_str());
                append_chars(&mut out, &t);
            },
            FormulaError::RuntimeError(s) => {
                let t = str_chars(s.as_str());
                append_chars(&mut out, &t);
            },
        }
        proof {
            assert(out@ =~= spec_err_message(self@));
        }
        chars_string(&out)
    }

    /// The rendered message followed by the formula text and a caret line
    /// pointing at the span.
    pub fn with_context(&self, expression: &str, span: Span) -> (r: String)
        requires
            span.start <= span.end,
        ensures
            r@ == spec_err_message(self@) + "\n"@ + expression@ + "\n"@ + Seq::new(
                span.start as nat,
                |i: int| ' ',
            ) + Seq::new(
                if span.end > span.start {
                    (span.end - span.start) as nat
                } else {
                    1nat
                },
                |i: int| '^',
            ),
    {
        let msg = self.message();
        let mut out: Vec<char> = str_chars(msg.as_str());
        out.push('\n');
        let e = str_chars(expression);
        append_chars(&mut out, &e);
        out.push('\n');
        let spaces = repeat_char(' ', span.start);
        append_chars(&mut out, &spaces);
        let caret_count: usize = if span.end - span.start >= 1 {
            span.end - span.start
        } else {
            1
        };
        let carets = repeat_char('^', caret_count);
        append_chars(&mut out, &carets);
        proof {
            reveal_strlit("\n");
            assert(out@ =~= spec_err_message(self@) + "\n"@ + expression@ + "\n"@ + Seq::new(
                span.start as nat,
                |i: int| ' ',
            ) + Seq::new(
                if span.end > span.start {
                    (span.end - span.start) as nat
                } else {
                    1nat
                },
                |i: int| '^',
            ));
        }
        chars_string(&out)
    }
}

} // verus!
