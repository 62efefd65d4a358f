//! The expression tree and the recursive-descent parser.
//!
//! Grammar, lowest precedence first: `expression := term (('+'|'-') term)*`,
//! `term := factor (('*'|'/'|'@') factor)*`, `factor := unary ('^' factor)?`,
//! `unary := primary ('.' 'T')?`, `primary := number | string literal |
//! reference or range | name '(' arguments ')' | '(' expression ')' |
//! variable`.  Every node carries the merged span of its pieces.

use vstd::prelude::*;
use crate::decimal::{Dec, parse_of};
use crate::strutil::{is_alnum_underscore, is_ascii_alpha, str_chars, chars_string, append_chars};
use crate::table::error::{FormulaError, SpecErr};
use crate::table::formula::reference::{parse_cell_reference, spec_parse_cell_reference, ref_ok};
use crate::table::formula::tokenizer::{SpecTok, Token, tok_views};
use crate::table::formula::types::{CellReference, Span, spec_merge};

verus! {

/// A binary operator of the formula language.
#[derive(Debug, Clone, Copy, PartialEq, Eq, Structural)]
pub enum BinaryOperator {
    Add,
    Sub,
    Mul,
    Div,
    Pow,
    MatMul,
}

impl BinaryOperator {
    /// The operator a token spells, if any.
    pub fn from_token(token: &Token) -> (r: Option<BinaryOperator>)
        ensures
            r == spec_op_of(token@.val),
    {
        if tok_char(token, '+') {
            Some(BinaryOperator::Add)
        } else if tok_char(token, '-') {
            Some(BinaryOperator::Sub)
        } else if tok_char(token, '*') {
            Some(BinaryOperator::Mul)
        } else if tok_char(token, '/') {
            Some(BinaryOperator::Div)
        } else if tok_char(token, '^') {
            Some(BinaryOperator::Pow)
        } else if tok_char(token, '@') {
            Some(BinaryOperator::MatMul)
        } else {
            None
        }
    }
}

pub open spec fn spec_op_of(val: Seq<char>) -> Option<BinaryOperator> {
    if val == seq!['+'] {
        Some(BinaryOperator::Add)
    } else if val == seq!['-'] {
        Some(BinaryOperator::Sub)
    } else if val == seq!['*'] {
        Some(BinaryOperator::Mul)
    } else if val == seq!['/'] {
        Some(BinaryOperator::Div)
    } else if val == seq!['^'] {
        Some(BinaryOperator::Pow)
    } else if val == seq!['@'] {
        Some(BinaryOperator::MatMul)
    } else {
        None
    }
}

/// One node of an expression tree.
#[derive(Debug, PartialEq)]
pub enum Expr {
    /// A literal decimal number.
    Literal(Dec, Span),
    /// A quoted string, valid only as a function argument.
    Str(String, Span),
    /// A cell, vector or range reference.
    CellRef(CellReference, Span),
    /// A binary operation.
    BinaryOp { left: Box<Expr>, op: BinaryOperator, right: Box<Expr>, span: Span },
    /// The postfix transpose `.T`.
    Transpose(Box<Expr>, Span),
    /// A function call such as `sum(A_)`.
    FunctionCall { name: String, args: Vec<Expr>, span: Span },
    /// A bound variable name.
    Variable(String, Span),
}

/// The mathematical model of an [`Expr`].
pub ghost enum SpecExpr {
    Literal(Dec, Span),
    Str(Seq<char>, Span),
    CellRef(CellReference, Span),
    BinaryOp { left: Box<SpecExpr>, op: BinaryOperator, right: Box<SpecExpr>, span: Span },
    Transpose(Box<SpecExpr>, Span),
    FunctionCall { name: Seq<char>, args: Seq<SpecExpr>, span: Span },
    Variable(Seq<char>, Span),
}

pub open spec fn expr_view(e: Expr) -> SpecExpr
    decreases e, 0int,
{
    match e {
        Expr::Literal(d, s) => SpecExpr::Literal(d, s),
        Expr::Str(t, s) => SpecExpr::Str(t@, s),
        Expr::CellRef(c, s) => SpecExpr::CellRef(c, s),
        Expr::BinaryOp { left, op, right, span } => SpecExpr::BinaryOp {
            left: Box::new(expr_view(*left)),
            op: op,
            right: Box::new(expr_view(*right)),
            span: span,
        },
        Expr::Transpose(inner, s) => SpecExpr::Transpose(Box::new(expr_view(*inner)), s),
        Expr::FunctionCall { name, args, span } => SpecExpr::FunctionCall {
            name: name@,
            args: exprs_view_of(args, 0),
            span: span,
        },
        Expr::Variable(n, s) => SpecExpr::Variable(n@, s),
    }
}

/// The models of the expressions of `v` from index `i` on.
pub open spec fn exprs_view_of(v: Vec<Expr>, i: int) -> Seq<SpecExpr>
    decreases v, v@.len() - i + 1,
{
    if i < 0 || i >= v@.len() {
        Seq::empty()
    } else {
        seq![expr_view(v@[i])] + exprs_view_of(v, i + 1)
    }
}

pub proof fn lemma_evs_same_view(a: Vec<Expr>, b: Vec<Expr>, i: int)
    requires
        a@ == b@,
    ensures
        exprs_view_of(a, i) == exprs_view_of(b, i),
    decreases a@.len() - i + 1,
{
    if 0 <= i < a@.len() {
        lemma_evs_same_view(a, b, i + 1);
    }
}

pub proof fn lemma_evs_index(v: Vec<Expr>, j: int)
    ensures
        exprs_view_of(v, j).len() == if j < 0 {
            0
        } else if j > v@.len() {
            0
        } else {
            v@.len() - j
        },
        forall|i: int|
            0 <= j <= i < v@.len() ==> exprs_view_of(v, j)[i - j] == expr_view(#[trigger] v@[i]),
    decreases v@.len() - j + 1,
{
    if 0 <= j < v@.len() {
        lemma_evs_index(v, j + 1);
    }
}

pub proof fn lemma_evs_push(v: Vec<Expr>, w: Vec<Expr>, x: Expr, i: int)
    requires
        w@ == v@.push(x),
        0 <= i <= v@.len(),
    ensures
        exprs_view_of(w, i) == exprs_view_of(v, i).push(expr_view(x)),
    decreases v@.len() - i,
{
    if i == v@.len() {
        assert(w@[i] == x);
        assert(exprs_view_of(w, i + 1) =~= Seq::<SpecExpr>::empty());
        assert(exprs_view_of(w, i) =~= exprs_view_of(v, i).push(expr_view(x)));
    } else {
        lemma_evs_push(v, w, x, i + 1);
        assert(w@[i] == v@[i]);
        assert(exprs_view_of(w, i) =~= exprs_view_of(v, i).push(expr_view(x)));
    }
}

pub open spec fn spec_expr_span(e: SpecExpr) -> Span {
    match e {
        SpecExpr::Literal(_, s) => s,
        SpecExpr::Str(_, s) => s,
        SpecExpr::CellRef(_, s) => s,
        SpecExpr::BinaryOp { span, .. } => span,
        SpecExpr::Transpose(_, s) => s,
        SpecExpr::FunctionCall { span, .. } => span,
        SpecExpr::Variable(_, s) => s,
    }
}

impl Expr {
    /// The source span this node covers.
    pub fn span(&self) -> (r: Span)
        ensures
            r == spec_expr_span(expr_view(*self)),
    {
        match self {
            Expr::Literal(_, s) => *s,
            Expr::Str(_, s) => *s,
            Expr::CellRef(_, s) => *s,
            Expr::BinaryOp { span, .. } => *span,
            Expr::Transpose(_, s) => *s,
            Expr::FunctionCall { span, .. } => *span,
            Expr::Variable(_, s) => *s,
        }
    }
}

/// A variable name: a letter or underscore, then letters, digits and
/// underscores.
pub open spec fn spec_is_ident(val: Seq<char>) -> bool {
    val.len() > 0 && (is_ascii_alpha(val[0]) || val[0] == '_') && forall|i: int|
        0 <= i < val.len() ==> is_alnum_underscore(#[trigger] val[i])
}

/// Every reference in the expression satisfies the machine bounds that
/// parsing guarantees; resolution relies on them.
pub open spec fn spec_expr_wf(e: SpecExpr) -> bool
    decreases e,
{
    match e {
        SpecExpr::Literal(d, _) => crate::decimal::dec_valid(d),
        SpecExpr::CellRef(cr, _) => ref_ok(cr),
        SpecExpr::BinaryOp { left, right, .. } => spec_expr_wf(*left) && spec_expr_wf(*right),
        SpecExpr::Transpose(inner, _) => spec_expr_wf(*inner),
        SpecExpr::FunctionCall { args, .. } => forall|i: int|
            0 <= i < args.len() ==> spec_expr_wf(#[trigger] args[i]),
        _ => true,
    }
}

pub open spec fn spec_exprs_wf(s: Seq<SpecExpr>) -> bool {
    forall|i: int| 0 <= i < s.len() ==> spec_expr_wf(#[trigger] s[i])
}

// ---------------------------------------------------------------------
// The specification of the parser.  Each function takes the token models
// and a position and yields the parsed node and the position after it, or
// the error the source syntax earns.  The `p <= toks.len() && p > pos`
// guards are always true of the executable parser and only serve
// termination of the specification.
// ---------------------------------------------------------------------

pub open spec fn spec_parse_expression(toks: Seq<SpecTok>, pos: int) -> Result<
    (SpecExpr, int),
    SpecErr,
>
    decreases toks.len() - pos, 6int,
{
    if !(0 <= pos <= toks.len()) {
        Err(SpecErr::EmptyExpression)
    } else {
        match spec_parse_term(toks, pos) {
            Ok((left, p)) => if pos < p <= toks.len() {
                spec_parse_expr_more(toks, p, left)
            } else {
                Err(SpecErr::EmptyExpression)
            },
            Err(e) => Err(e),
        }
    }
}

pub open spec fn spec_parse_expr_more(toks: Seq<SpecTok>, pos: int, left: SpecExpr) -> Result<
    (SpecExpr, int),
    SpecErr,
>
    decreases toks.len() - pos, 7int,
{
    if !(0 <= pos <= toks.len()) {
        Err(SpecErr::EmptyExpression)
    } else if pos < toks.len() && (toks[pos].val == seq!['+'] || toks[pos].val == seq!['-']) {
        let op = if toks[pos].val == seq!['+'] {
            BinaryOperator::Add
        } else {
            BinaryOperator::Sub
        };
        match spec_parse_term(toks, pos + 1) {
            Ok((right, p2)) => if pos < p2 <= toks.len() {
                spec_parse_expr_more(
                    toks,
                    p2,
                    SpecExpr::BinaryOp {
                        left: Box::new(left),
                        op: op,
                        right: Box::new(right),
                        span: spec_merge(spec_expr_span(left), spec_expr_span(right)),
                    },
                )
            } else {
                Err(SpecErr::EmptyExpression)
            },
            Err(e) => Err(e),
        }
    } else {
        Ok((left, pos))
    }
}

pub open spec fn spec_parse_term(toks: Seq<SpecTok>, pos: int) -> Result<(SpecExpr, int), SpecErr>
    decreases toks.len() - pos, 4int,
{
    if !(0 <= pos <= toks.len()) {
        Err(SpecErr::EmptyExpression)
    } else {
        match spec_parse_factor(toks, pos) {
            Ok((left, p)) => if pos < p <= toks.len() {
                spec_parse_term_more(toks, p, left)
            } else {
                Err(SpecErr::EmptyExpression)
            },
            Err(e) => Err(e),
        }
    }
}

pub open spec fn spec_parse_term_more(toks: Seq<SpecTok>, pos: int, left: SpecExpr) -> Result<
    (SpecExpr, int),
    SpecErr,
>
    decreases toks.len() - pos, 5int,
{
    if !(0 <= pos <= toks.len()) {
        Err(SpecErr::EmptyExpression)
    } else if pos < toks.len() && (toks[pos].val == seq!['*'] || toks[pos].val == seq!['/']
        || toks[pos].val == seq!['@']) {
        let op = if toks[pos].val == seq!['*'] {
            BinaryOperator::Mul
        } else if toks[pos].val == seq!['/'] {
            BinaryOperator::Div
        } else {
            BinaryOperator::MatMul
        };
        match spec_parse_factor(toks, pos + 1) {
            Ok((right, p2)) => if pos < p2 <= toks.len() {
                spec_parse_term_more(
                    toks,
                    p2,
                    SpecExpr::BinaryOp {
                        left: Box::new(left),
                        op: op,
                        right: Box::new(right),
                        span: spec_merge(spec_expr_span(left), spec_expr_span(right)),
                    },
                )
            } else {
                Err(SpecErr::EmptyExpression)
            },
            Err(e) => Err(e),
        }
    } else {
        Ok((left, pos))
    }
}

pub open spec fn spec_parse_factor(toks: Seq<SpecTok>, pos: int) -> Result<
    (SpecExpr, int),
    SpecErr,
>
    decreases toks.len() - pos, 3int,
{
    if !(0 <= pos <= toks.len()) {
        Err(SpecErr::EmptyExpression)
    } else {
        match spec_parse_unary(toks, pos) {
            Ok((left, p)) => if p < toks.len() && toks[p].val == seq!['^'] {
                if pos < p && p + 1 <= toks.len() {
                    match spec_parse_factor(toks, p + 1) {
                        Ok((right, p2)) => Ok(
                            (
                                SpecExpr::BinaryOp {
                                    left: Box::new(left),
                                    op: BinaryOperator::Pow,
                                    right: Box::new(right),
                                    span: spec_merge(spec_expr_span(left), spec_expr_span(right)),
                                },
                                p2,
                            ),
                        ),
                        Err(e) => Err(e),
                    }
                } else {
                    Err(SpecErr::EmptyExpression)
                }
            } else {
                Ok((left, p))
            },
            Err(e) => Err(e),
        }
    }
}

pub open spec fn spec_parse_unary(toks: Seq<SpecTok>, pos: int) -> Result<(SpecExpr, int), SpecErr>
    decreases toks.len() - pos, 2int,
{
    if !(0 <= pos <= toks.len()) {
        Err(SpecErr::EmptyExpression)
    } else {
        match spec_parse_primary(toks, pos) {
            Ok((e, p)) => if p + 1 < toks.len() && toks[p].val == seq!['.'] && toks[p + 1].val
                == seq!['T'] {
                Ok(
                    (
                        SpecExpr::Transpose(
                            Box::new(e),
                            spec_merge(
                                spec_expr_span(e),
                                Span {
                                    start: toks[p + 1].start as usize,
                                    end: toks[p + 1].end as usize,
                                },
                            ),
                        ),
                        p + 2,
                    ),
                )
            } else {
                Ok((e, p))
            },
            Err(e) => Err(e),
        }
    }
}

pub open spec fn tok_span(t: SpecTok) -> Span {
    Span { start: t.start as usize, end: t.end as usize }
}

pub open spec fn s_invalid_token(val: Seq<char>) -> Seq<char> {
    "invalid token: '"@ + val + "' is not a valid number, string, or cell reference"@
}

pub open spec fn s_invalid_range_end(val: Seq<char>) -> Seq<char> {
    "invalid range end: '"@ + val + "' is not a valid cell reference"@
}

pub open spec fn s_unmatched_call(name: Seq<char>) -> Seq<char> {
    "unmatched '(' in function call '"@ + name + "'"@
}

/// The range reference two endpoint references form, or the error when the
/// endpoints do not line up.
pub open spec fn spec_make_range(start: CellReference, end: CellReference, span: Span) -> Result<
    (SpecExpr, int),
    SpecErr,
> {
    match (start, end) {
        (
            CellReference::Scalar { row: sr, col: sc },
            CellReference::Scalar { row: er, col: ec },
        ) => {
            if sr > er || sc > ec {
                Err(
                    SpecErr::RuntimeError(
                        "invalid range: start cell must be before or equal to end cell"@,
                    ),
                )
            } else {
                Ok(
                    (
                        SpecExpr::CellRef(
                            CellReference::Range {
                                start_row: sr,
                                start_col: sc,
                                end_row: er,
                                end_col: ec,
                            },
                            span,
                        ),
                        0,
                    ),
                )
            }
        },
        (CellReference::ColumnVector { col: sc }, CellReference::ColumnVector { col: ec }) => {
            if sc > ec {
                Err(
                    SpecErr::RuntimeError(
                        "invalid column range: start column must be before or equal to end column"@,
                    ),
                )
            } else {
                Ok(
                    (
                        SpecExpr::CellRef(
                            CellReference::ColumnRange { start_col: sc, end_col: ec },
                            span,
                        ),
                        0,
                    ),
                )
            }
        },
        (CellReference::RowVector { row: sr }, CellReference::RowVector { row: er }) => {
            if sr > er {
                Err(
                    SpecErr::RuntimeError(
                        "invalid row range: start row must be before or equal to end row"@,
                    ),
                )
            } else {
                Ok(
                    (
                        SpecExpr::CellRef(
                            CellReference::RowRange { start_row: sr, end_row: er },
                            span,
                        ),
                        0,
                    ),
                )
            }
        },
        _ => Err(
            SpecErr::RuntimeError(
                "invalid range: cannot mix different reference types (e.g., A_:_5 or A1:B_ are not allowed)"@,
            ),
        ),
    }
}

pub open spec fn spec_parse_primary(toks: Seq<SpecTok>, pos: int) -> Result<
    (SpecExpr, int),
    SpecErr,
>
    decreases toks.len() - pos, 1int,
{
    if !(0 <= pos < toks.len()) {
        Err(SpecErr::EmptyExpression)
    } else {
        let t = toks[pos];
        if t.val == seq!['('] {
            match spec_parse_expression(toks, pos + 1) {
                Ok((e, p)) => if p < toks.len() && toks[p].val == seq![')'] {
                    Ok((e, p + 1))
                } else {
                    Err(
                        SpecErr::RuntimeError(
                            "unmatched opening parenthesis '(' - missing closing ')'"@,
                        ),
                    )
                },
                Err(e) => Err(e),
            }
        } else if pos + 1 < toks.len() && toks[pos + 1].val == seq!['('] {
            spec_parse_call(toks, pos)
        } else {
            match spec_parse_cell_reference(t.val) {
                Some(cr) => spec_parse_ref_or_range(toks, pos, cr),
                None => if t.val.len() >= 2 && t.val[0] == '"' && t.val.last() == '"' {
                    Ok((SpecExpr::Str(t.val.subrange(1, t.val.len() - 1), tok_span(t)), pos + 1))
                } else {
                    match parse_of(t.val) {
                        Some(d) => Ok((SpecExpr::Literal(d, tok_span(t)), pos + 1)),
                        None => if spec_is_ident(t.val) {
                            Ok((SpecExpr::Variable(t.val, tok_span(t)), pos + 1))
                        } else {
                            Err(SpecErr::RuntimeError(s_invalid_token(t.val)))
                        },
                    }
                },
            }
        }
    }
}

/// A reference, possibly extended to a range by `: reference`.
pub open spec fn spec_parse_ref_or_range(toks: Seq<SpecTok>, pos: int, cr: CellReference) -> Result<
    (SpecExpr, int),
    SpecErr,
> {
    if pos + 1 < toks.len() && toks[pos + 1].val == seq![':'] {
        if pos + 2 >= toks.len() {
            Err(SpecErr::RuntimeError("expected cell reference after ':' in range"@))
        } else {
            let endtok = toks[pos + 2];
            match spec_parse_cell_reference(endtok.val) {
                Some(er) => {
                    let span = spec_merge(tok_span(toks[pos]), tok_span(endtok));
                    match spec_make_range(cr, er, span) {
                        Ok((e, _)) => Ok((e, pos + 3)),
                        Err(se) => Err(se),
                    }
                },
                None => Err(SpecErr::RuntimeError(s_invalid_range_end(endtok.val))),
            }
        }
    } else {
        Ok((SpecExpr::CellRef(cr, tok_span(toks[pos])), pos + 1))
    }
}

/// A function call `name ( arguments )`, the head token standing at `pos`
/// and `(` just after it.
pub open spec fn spec_parse_call(toks: Seq<SpecTok>, pos: int) -> Result<(SpecExpr, int), SpecErr>
    decreases toks.len() - pos, 0int,
{
    if !(0 <= pos && pos + 1 < toks.len()) {
        Err(SpecErr::EmptyExpression)
    } else {
        let name = toks[pos].val;
        let fspan = tok_span(toks[pos]);
        let argres: Result<(Seq<SpecExpr>, int), SpecErr> = if pos + 2 < toks.len() && toks[pos
            + 2].val != seq![')'] {
            spec_parse_args(toks, pos + 2, Seq::empty())
        } else {
            Ok((Seq::empty(), pos + 2))
        };
        match argres {
            Ok((args, p)) => if p < toks.len() && toks[p].val == seq![')'] {
                Ok(
                    (
                        SpecExpr::FunctionCall {
                            name: name,
                            args: args,
                            span: spec_merge(fspan, tok_span(toks[p])),
                        },
                        p + 1,
                    ),
                )
            } else {
                Err(SpecErr::RuntimeError(s_unmatched_call(name)))
            },
            Err(e) => Err(e),
        }
    }
}

/// One or more comma-separated arguments starting at `pos`.
pub open spec fn spec_parse_args(toks: Seq<SpecTok>, pos: int, acc: Seq<SpecExpr>) -> Result<
    (Seq<SpecExpr>, int),
    SpecErr,
>
    decreases toks.len() - pos, 8int,
{
    if !(0 <= pos <= toks.len()) {
        Err(SpecErr::EmptyExpression)
    } else {
        match spec_parse_expression(toks, pos) {
            Ok((a, p)) => if p < toks.len() && toks[p].val == seq![','] {
                if pos < p {
                    spec_parse_args(toks, p + 1, acc.push(a))
                } else {
                    Err(SpecErr::EmptyExpression)
                }
            } else {
                Ok((acc.push(a), p))
            },
            Err(e) => Err(e),
        }
    }
}

/// What parsing a whole token list yields: the expression, with no tokens
/// allowed to follow it.
pub open spec fn spec_parse(toks: Seq<SpecTok>) -> Result<SpecExpr, SpecErr> {
    match spec_parse_expression(toks, 0) {
        Ok((e, p)) => if p < toks.len() {
            Err(SpecErr::UnexpectedToken { token: toks[p].val, position: p as nat })
        } else {
            Ok(e)
        },
        Err(se) => Err(se),
    }
}

} // verus!

verus! {

/// Does the token spell exactly the one character `c`?
fn tok_char(t: &Token, c: char) -> (r: bool)
    ensures
        r == (t@.val == seq![c]),
{
    let v = str_chars(t.value.as_str());
    if v.len() == 1 && v[0] == c {
        proof {
            assert(v@ =~= seq![c]);
        }
        true
    } else {
        proof {
            if t@.val == seq![c] {
                assert(v@.len() == 1 && v@[0] == c);
            }
        }
        false
    }
}

fn is_ident_exec(v: &Vec<char>) -> (r: bool)
    ensures
        r == spec_is_ident(v@),
{
    if v.len() == 0 {
        return false;
    }
    let c0 = v[0];
    if !(('a' <= c0 && c0 <= 'z') || ('A' <= c0 && c0 <= 'Z') || c0 == '_') {
        return false;
    }
    let mut i: usize = 0;
    while i < v.len()
        invariant
            0 <= i <= v@.len(),
            forall|j: int| 0 <= j < i ==> is_alnum_underscore(#[trigger] v@[j]),
        decreases v@.len() - i,
    {
        let c = v[i];
        if !(('a' <= c && c <= 'z') || ('A' <= c && c <= 'Z') || ('0' <= c && c <= '9') || c
            == '_') {
            proof {
                assert(!is_alnum_underscore(v@[i as int]));
            }
            return false;
        }
        i = i + 1;
    }
    true
}

fn rt_error(msg: &str) -> (r: FormulaError)
    ensures
        r@ == SpecErr::RuntimeError(msg@),
{
    FormulaError::RuntimeError(String::from_str(msg))
}

fn parse_expression_at(toks: &Vec<Token>, pos: usize) -> (r: Result<
    (Expr, usize),
    FormulaError,
>)
    requires
        pos <= toks@.len(),
    ensures
        (r matches Ok(ep) ==> spec_parse_expression(tok_views(toks@), pos as int) == Ok::<
            (SpecExpr, int),
            SpecErr,
        >((expr_view(ep.0), ep.1 as int)) && pos < ep.1 <= toks@.len() && spec_expr_wf(
            expr_view(ep.0),
        )),
        (r matches Err(er) ==> spec_parse_expression(tok_views(toks@), pos as int) == Err::<
            (SpecExpr, int),
            SpecErr,
        >(er@)),
    decreases toks@.len() - pos, 6int,
{
    let ghost tv = tok_views(toks@);
    let first = parse_term_at(toks, pos);
    match first {
        Err(e) => Err(e),
        Ok((e0, p0)) => {
            let mut left = e0;
            let mut p = p0;
            loop
                invariant
                    pos < p <= toks@.len(),
                    tv == tok_views(toks@),
                    spec_expr_wf(expr_view(left)),
                    spec_parse_expression(tv, pos as int) == spec_parse_expr_more(
                        tv,
                        p as int,
                        expr_view(left),
                    ),
                ensures
                    pos < p <= toks@.len(),
                    spec_expr_wf(expr_view(left)),
                    spec_parse_expression(tv, pos as int) == Ok::<(SpecExpr, int), SpecErr>(
                        (expr_view(left), p as int),
                    ),
                decreases toks@.len() - p,
            {
                if p >= toks.len() {
                    break;
                }
                let is_add = tok_char(&toks[p], '+');
                let is_sub = tok_char(&toks[p], '-');
                if !is_add && !is_sub {
                    break;
                }
                let op = if is_add {
                    BinaryOperator::Add
                } else {
                    BinaryOperator::Sub
                };
                match parse_term_at(toks, p + 1) {
                    Err(e) => {
                        return Err(e);
                    },
                    Ok((right, p2)) => {
                        let span = left.span().merge(&right.span());
                        let ghost lv = expr_view(left);
                        let ghost rv = expr_view(right);
                        left = Expr::BinaryOp {
                            left: Box::new(left),
                            op,
                            right: Box::new(right),
                            span,
                        };
                        proof {
                            assert(expr_view(left) == SpecExpr::BinaryOp {
                                left: Box::new(lv),
                                op: op,
                                right: Box::new(rv),
                                span: spec_merge(spec_expr_span(lv), spec_expr_span(rv)),
                            });
                        }
                        p = p2;
                    },
                }
            }
            Ok((left, p))
        },
    }
}

fn parse_term_at(toks: &Vec<Token>, pos: usize) -> (r: Result<(Expr, usize), FormulaError>)
    requires
        pos <= toks@.len(),
    ensures
        (r matches Ok(ep) ==> spec_parse_term(tok_views(toks@), pos as int) == Ok::<
            (SpecExpr, int),
            SpecErr,
        >((expr_view(ep.0), ep.1 as int)) && pos < ep.1 <= toks@.len() && spec_expr_wf(
            expr_view(ep.0),
        )),
        (r matches Err(er) ==> spec_parse_term(tok_views(toks@), pos as int) == Err::<
            (SpecExpr, int),
            SpecErr,
        >(er@)),
    decreases toks@.len() - pos, 4int,
{
    let ghost tv = tok_views(toks@);
    let first = parse_factor_at(toks, pos);
    match first {
        Err(e) => Err(e),
        Ok((e0, p0)) => {
            let mut left = e0;
            let mut p = p0;
            loop
                invariant
                    pos < p <= toks@.len(),
                    tv == tok_views(toks@),
                    spec_expr_wf(expr_view(left)),
                    spec_parse_term(tv, pos as int) == spec_parse_term_more(
                        tv,
                        p as int,
                        expr_view(left),
                    ),
                ensures
                    pos < p <= toks@.len(),
                    spec_expr_wf(expr_view(left)),
                    spec_parse_term(tv, pos as int) == Ok::<(SpecExpr, int), SpecErr>(
                        (expr_view(left), p as int),
                    ),
                decreases toks@.len() - p,
            {
                if p >= toks.len() {
                    break;
                }
                let is_mul = tok_char(&toks[p], '*');
                let is_div = tok_char(&toks[p], '/');
                let is_mm = tok_char(&toks[p], '@');
                if !is_mul && !is_div && !is_mm {
                    break;
                }
                let op = if is_mul {
                    BinaryOperator::Mul
                } else if is_div {
                    BinaryOperator::Div
                } else {
                    BinaryOperator::MatMul
                };
                match parse_factor_at(toks, p + 1) {
                    Err(e) => {
                        return Err(e);
                    },
                    Ok((right, p2)) => {
                        let span = left.span().merge(&right.span());
                        let ghost lv = expr_view(left);
                        let ghost rv = expr_view(right);
                        left = Expr::BinaryOp {
                            left: Box::new(left),
                            op,
                            right: Box::new(right),
                            span,
                        };
                        proof {
                            assert(expr_view(left) == SpecExpr::BinaryOp {
                                left: Box::new(lv),
                                op: op,
                                right: Box::new(rv),
                                span: spec_merge(spec_expr_span(lv), spec_expr_span(rv)),
                            });
                        }
                        p = p2;
                    },
                }
            }
            Ok((left, p))
        },
    }
}

fn parse_factor_at(toks: &Vec<Token>, pos: usize) -> (r: Result<(Expr, usize), FormulaError>)
    requires
        pos <= toks@.len(),
    ensures
        (r matches Ok(ep) ==> spec_parse_factor(tok_views(toks@), pos as int) == Ok::<
            (SpecExpr, int),
            SpecErr,
        >((expr_view(ep.0), ep.1 as int)) && pos < ep.1 <= toks@.len() && spec_expr_wf(
            expr_view(ep.0),
        )),
        (r matches Err(er) ==> spec_parse_factor(tok_views(toks@), pos as int) == Err::<
            (SpecExpr, int),
            SpecErr,
        >(er@)),
    decreases toks@.len() - pos, 3int,
{
    match parse_unary_at(toks, pos) {
        Err(e) => Err(e),
        Ok((left, p)) => {
            if p < toks.len() && tok_char(&toks[p], '^') {
                match parse_factor_at(toks, p + 1) {
                    Err(e) => Err(e),
                    Ok((right, p2)) => {
                        let span = left.span().merge(&right.span());
                        let ghost lv = expr_view(left);
                        let ghost rv = expr_view(right);
                        let node = Expr::BinaryOp {
                            left: Box::new(left),
                            op: BinaryOperator::Pow,
                            right: Box::new(right),
                            span,
                        };
                        proof {
                            assert(expr_view(node) == SpecExpr::BinaryOp {
                                left: Box::new(lv),
                                op: BinaryOperator::Pow,
                                right: Box::new(rv),
                                span: spec_merge(spec_expr_span(lv), spec_expr_span(rv)),
                            });
                        }
                        Ok((node, p2))
                    },
                }
            } else {
                Ok((left, p))
            }
        },
    }
}

fn parse_unary_at(toks: &Vec<Token>, pos: usize) -> (r: Result<(Expr, usize), FormulaError>)
    requires
        pos <= toks@.len(),
    ensures
        (r matches Ok(ep) ==> spec_parse_unary(tok_views(toks@), pos as int) == Ok::<
            (SpecExpr, int),
            SpecErr,
        >((expr_view(ep.0), ep.1 as int)) && pos < ep.1 <= toks@.len() && spec_expr_wf(
            expr_view(ep.0),
        )),
        (r matches Err(er) ==> spec_parse_unary(tok_views(toks@), pos as int) == Err::<
            (SpecExpr, int),
            SpecErr,
        >(er@)),
    decreases toks@.len() - pos, 2int,
{
    match parse_primary_at(toks, pos) {
        Err(e) => Err(e),
        Ok((e0, p)) => {
            if p < toks.len() && p + 1 < toks.len() && tok_char(&toks[p], '.') && tok_char(
                &toks[p + 1],
                'T',
            ) {
                let tspan = toks[p + 1].span;
                let span = e0.span().merge(&tspan);
                let ghost iv = expr_view(e0);
                let node = Expr::Transpose(Box::new(e0), span);
                proof {
                    assert(expr_view(node) == SpecExpr::Transpose(
                        Box::new(iv),
                        spec_merge(spec_expr_span(iv), tok_span(tok_views(toks@)[p as int + 1])),
                    ));
                }
                Ok((node, p + 2))
            } else {
                Ok((e0, p))
            }
        },
    }
}

fn parse_args_at(toks: &Vec<Token>, pos: usize, args: &mut Vec<Expr>) -> (r: Result<
    usize,
    FormulaError,
>)
    requires
        pos <= toks@.len(),
    ensures
        (r matches Ok(p) ==> spec_parse_args(tok_views(toks@), pos as int, exprs_view_of(*old(args), 0))
            == Ok::<(Seq<SpecExpr>, int), SpecErr>((exprs_view_of(*final(args), 0), p as int)) && pos
            < p <= toks@.len() && (spec_exprs_wf(exprs_view_of(*old(args), 0)) ==> spec_exprs_wf(
            exprs_view_of(*final(args), 0),
        ))),
        (r matches Err(er) ==> spec_parse_args(tok_views(toks@), pos as int, exprs_view_of(*old(args), 0))
            == Err::<(Seq<SpecExpr>, int), SpecErr>(er@)),
    decreases toks@.len() - pos, 8int,
{
    match parse_expression_at(toks, pos) {
        Err(e) => Err(e),
        Ok((a, p)) => {
            let ghost before = *args;
            let ghost av = expr_view(a);
            if p < toks.len() && tok_char(&toks[p], ',') {
                args.push(a);
                proof {
                    lemma_evs_push(before, *args, a, 0);
                }
                parse_args_at(toks, p + 1, args)
            } else {
                args.push(a);
                proof {
                    lemma_evs_push(before, *args, a, 0);
                }
                Ok(p)
            }
        },
    }
}

fn parse_call_at(toks: &Vec<Token>, pos: usize) -> (r: Result<(Expr, usize), FormulaError>)
    requires
        pos + 1 < toks@.len(),
    ensures
        (r matches Ok(ep) ==> spec_parse_call(tok_views(toks@), pos as int) == Ok::<
            (SpecExpr, int),
            SpecErr,
        >((expr_view(ep.0), ep.1 as int)) && pos < ep.1 <= toks@.len() && spec_expr_wf(
            expr_view(ep.0),
        )),
        (r matches Err(er) ==> spec_parse_call(tok_views(toks@), pos as int) == Err::<
            (SpecExpr, int),
            SpecErr,
        >(er@)),
    decreases toks@.len() - pos, 0int,
{
    let ghost tv = tok_views(toks@);
    let n = toks.len();
    let name = toks[pos].value.clone();
    let fspan = toks[pos].span;
    let mut args: Vec<Expr> = Vec::new();
    proof {
        assert(exprs_view_of(args, 0) =~= Seq::<SpecExpr>::empty());
    }
    let argres: Result<usize, FormulaError> = if pos + 2 < n && !tok_char(
        &toks[pos + 2],
        ')',
    ) {
        parse_args_at(toks, pos + 2, &mut args)
    } else {
        Ok(pos + 2)
    };
    match argres {
        Err(e) => Err(e),
        Ok(p) => {
            if p < toks.len() && tok_char(&toks[p], ')') {
                let span = fspan.merge(&toks[p].span);
                let ghost argsnap = args;
                let node = Expr::FunctionCall { name, args, span };
                proof {
                    lemma_evs_same_view(node->FunctionCall_args, argsnap, 0);
                    assert(expr_view(node) == SpecExpr::FunctionCall {
                        name: tv[pos as int].val,
                        args: exprs_view_of(argsnap, 0),
                        span: spec_merge(tok_span(tv[pos as int]), tok_span(tv[p as int])),
                    });
                }
                Ok((node, p + 1))
            } else {
                let mut msg = str_chars("unmatched '(' in function call '");
                let nv = str_chars(name.as_str());
                append_chars(&mut msg, &nv);
                let tail = str_chars("'");
                append_chars(&mut msg, &tail);
                proof {
                    assert(msg@ =~= s_unmatched_call(tv[pos as int].val));
                }
                Err(FormulaError::RuntimeError(chars_string(&msg)))
            }
        },
    }
}

fn parse_primary_at(toks: &Vec<Token>, pos: usize) -> (r: Result<(Expr, usize), FormulaError>)
    requires
        pos <= toks@.len(),
    ensures
        (r matches Ok(ep) ==> spec_parse_primary(tok_views(toks@), pos as int) == Ok::<
            (SpecExpr, int),
            SpecErr,
        >((expr_view(ep.0), ep.1 as int)) && pos < ep.1 <= toks@.len() && spec_expr_wf(
            expr_view(ep.0),
        )),
        (r matches Err(er) ==> spec_parse_primary(tok_views(toks@), pos as int) == Err::<
            (SpecExpr, int),
            SpecErr,
        >(er@)),
    decreases toks@.len() - pos, 1int,
{
    let ghost tv = tok_views(toks@);
    if pos >= toks.len() {
        return Err(FormulaError::EmptyExpression);
    }
    if tok_char(&toks[pos], '(') {
        return match parse_expression_at(toks, pos + 1) {
            Err(e) => Err(e),
            Ok((e0, p)) => {
                if p < toks.len() && tok_char(&toks[p], ')') {
                    Ok((e0, p + 1))
                } else {
                    Err(rt_error("unmatched opening parenthesis '(' - missing closing ')'"))
                }
            },
        };
    }
    if pos + 1 < toks.len() && tok_char(&toks[pos + 1], '(') {
        return parse_call_at(toks, pos);
    }
    let tokval = str_chars(toks[pos].value.as_str());
    let tspan = toks[pos].span;
    match parse_cell_reference(toks[pos].value.as_str()) {
        Some(cr) => {
            // Possibly a range `ref : ref`.
            if pos + 1 < toks.len() && tok_char(&toks[pos + 1], ':') {
                if pos + 2 >= toks.len() {
                    return Err(rt_error("expected cell reference after ':' in range"));
                }
                let endval = str_chars(toks[pos + 2].value.as_str());
                match parse_cell_reference(toks[pos + 2].value.as_str()) {
                    Some(er) => {
                        let span = tspan.merge(&toks[pos + 2].span);
                        proof {
                            assert(spec_merge(tok_span(tv[pos as int]), tok_span(
                                tv[pos as int + 2],
                            )) == span);
                        }
                        match (cr, er) {
                            (
                                CellReference::Scalar { row: sr, col: sc },
                                CellReference::Scalar { row: er2, col: ec },
                            ) => {
                                if sr > er2 || sc > ec {
                                    Err(
                                        rt_error(
                                            "invalid range: start cell must be before or equal to end cell",
                                        ),
                                    )
                                } else {
                                    Ok(
                                        (
                                            Expr::CellRef(
                                                CellReference::Range {
                                                    start_row: sr,
                                                    start_col: sc,
                                                    end_row: er2,
                                                    end_col: ec,
                                                },
                                                span,
                                            ),
                                            pos + 3,
                                        ),
                                    )
                                }
                            },
                            (
                                CellReference::ColumnVector { col: sc },
                                CellReference::ColumnVector { col: ec },
                            ) => {
                                if sc > ec {
                                    Err(
                                        rt_error(
                                            "invalid column range: start column must be before or equal to end column",
                                        ),
                                    )
                                } else {
                                    Ok(
                                        (
                                            Expr::CellRef(
                                                CellReference::ColumnRange {
                                                    start_col: sc,
                                                    end_col: ec,
                                                },
                                                span,
                                            ),
                                            pos + 3,
                                        ),
                                    )
                                }
                            },
                            (
                                CellReference::RowVector { row: sr },
                                CellReference::RowVector { row: er2 },
                            ) => {
                                if sr > er2 {
                                    Err(
                                        rt_error(
                                            "invalid row range: start row must be before or equal to end row",
                                        ),
                                    )
                                } else {
                                    Ok(
                                        (
                                            Expr::CellRef(
                                                CellReference::RowRange {
                                                    start_row: sr,
                                                    end_row: er2,
                                                },
                                                span,
                                            ),
                                            pos + 3,
                                        ),
                                    )
                                }
                            },
                            _ => Err(
                                rt_error(
                                    "invalid range: cannot mix different reference types (e.g., A_:_5 or A1:B_ are not allowed)",
                                ),
                            ),
                        }
                    },
                    None => {
                        let mut msg = str_chars("invalid range end: '");
                        append_chars(&mut msg, &endval);
                        let tail = str_chars("' is not a valid cell reference");
                        append_chars(&mut msg, &tail);
                        proof {
                            assert(msg@ =~= s_invalid_range_end(tv[pos as int + 2].val));
                        }
                        Err(FormulaError::RuntimeError(chars_string(&msg)))
                    },
                }
            } else {
                Ok((Expr::CellRef(cr, tspan), pos + 1))
            }
        },
        None => {
            if tokval.len() >= 2 && tokval[0] == '"' && tokval[tokval.len() - 1] == '"' {
                proof {
                    assert(tv[pos as int].val.last() == tokval@[tokval@.len() - 1]);
                }
                let content = crate::strutil::subrange_chars(&tokval, 1, tokval.len() - 1);
                return Ok((Expr::Str(chars_string(&content), tspan), pos + 1));
            }
            match crate::decimal::dec_from_str(toks[pos].value.as_str()) {
                Some(d) => Ok((Expr::Literal(d, tspan), pos + 1)),
                None => {
                    if is_ident_exec(&tokval) {
                        Ok((Expr::Variable(toks[pos].value.clone(), tspan), pos + 1))
                    } else {
                        let mut msg = str_chars("invalid token: '");
                        append_chars(&mut msg, &tokval);
                        let tail = str_chars(
                            "' is not a valid number, string, or cell reference",
                        );
                        append_chars(&mut msg, &tail);
                        proof {
                            assert(msg@ =~= s_invalid_token(tv[pos as int].val));
                        }
                        Err(FormulaError::RuntimeError(chars_string(&msg)))
                    }
                },
            }
        },
    }
}

/// The recursive-descent parser over one token list.
pub struct Parser {
    pub tokens: Vec<Token>,
    pub pos: usize,
}

impl Parser {
    pub fn new(tokens: Vec<Token>) -> (r: Parser)
        ensures
            r.tokens == tokens,
            r.pos == 0,
    {
        Parser { tokens, pos: 0 }
    }

    /// Parses the whole token list as one expression; trailing tokens are an
    /// error.
    pub fn parse(&mut self) -> (r: Result<Expr, FormulaError>)
        ensures
            final(self).tokens == old(self).tokens,
            (match spec_parse(tok_views(old(self).tokens@)) {
                Ok(e) => r matches Ok(x) && expr_view(x) == e && spec_expr_wf(e),
                Err(se) => r matches Err(er) && er@ == se,
            }),
    {
        let ghost tv = tok_views(self.tokens@);
        match parse_expression_at(&self.tokens, 0) {
            Err(e) => Err(e),
            Ok((e0, p)) => {
                self.pos = p;
                if p < self.tokens.len() {
                    Err(
                        FormulaError::UnexpectedToken {
                            token: self.tokens[p].value.clone(),
                            position: p,
                        },
                    )
                } else {
                    Ok(e0)
                }
            },
        }
    }
}

} // verus!
