//! The evaluator: operator semantics with broadcasting, matrix multiply,
//! the aggregate functions and cross-table lookups.

use vstd::prelude::*;
use crate::decimal::{Dec, add_of, sub_of, mul_of, div_of, powf_of, dec_add, dec_sub, dec_mul,
    dec_div, dec_powf, dec_lt, dec_to_string, dec_valid, pow10, spec_dec_lt, string_of};
use crate::strutil::{append_chars, chars_string, str_chars, to_lower, to_lower_chars,
    usize_to_chars, spec_nat_str, eq_chars};
use crate::table::error::{FormulaError, SpecErr, spec_err_message};
use crate::table::formula::types::{SpecVal, Value, decs_valid, sv_wf, spec_transpose};

verus! {

/// The character an operator is displayed as.

/// One scalar step of `+ - * / ^`: `None` stands for a zero divisor, an
/// unrepresentable result, or a failed power.
pub open spec fn spec_scalar_op(op: char, l: Dec, r: Dec) -> Option<Dec> {
    if op == '+' {
        add_of(l, r)
    } else if op == '-' {
        sub_of(l, r)
    } else if op == '*' {
        mul_of(l, r)
    } else if op == '/' {
        if r.m == 0 {
            None
        } else {
            div_of(l, r)
        }
    } else if op == '^' {
        spec_decimal_pow(l, r)
    } else {
        None
    }
}

/// `base` multiplied onto one, `k` times, stopping at the first
/// unrepresentable intermediate.
pub open spec fn spec_pow_acc(base: Dec, k: nat) -> Option<Dec>
    decreases k,
{
    if k == 0 {
        Some(Dec { m: 1, e: 0 })
    } else {
        match spec_pow_acc(base, (k - 1) as nat) {
            None => None,
            Some(r) => mul_of(r, base),
        }
    }
}

/// The power semantics: a whole-number exponent that fits a machine word
/// means repeated multiplication (reciprocal for a negative exponent);
/// anything else falls back to the lossy floating-point power.
pub open spec fn spec_decimal_pow(base: Dec, exp: Dec) -> Option<Dec> {
    if crate::decimal::spec_dec_is_int(exp) {
        let v = (exp.m as int) / pow10(exp.e as nat);
        if 0 <= v <= i64::MAX {
            spec_pow_acc(base, v as nat)
        } else if i64::MIN <= v < 0 {
            match spec_pow_acc(base, (-v) as nat) {
                None => None,
                Some(r) => if r.m == 0 {
                    None
                } else {
                    div_of(Dec { m: 1, e: 0 }, r)
                },
            }
        } else {
            powf_of(base, exp)
        }
    } else {
        powf_of(base, exp)
    }
}

/// The entries of the matrix product, each possibly failing on overflow.
pub open spec fn spec_dot_from(
    ld: Seq<Dec>,
    rd: Seq<Dec>,
    n: int,
    p: int,
    i: int,
    j: int,
    k: int,
    acc: Dec,
) -> Option<Dec>
    decreases n - k,
{
    if k < 0 || k >= n {
        Some(acc)
    } else {
        match mul_of(ld[i * n + k], rd[k * p + j]) {
            None => None,
            Some(prod) => match add_of(acc, prod) {
                None => None,
                Some(s) => spec_dot_from(ld, rd, n, p, i, j, k + 1, s),
            },
        }
    }
}

pub open spec fn spec_dot(ld: Seq<Dec>, rd: Seq<Dec>, n: int, p: int, i: int, j: int) -> Option<
    Dec,
> {
    spec_dot_from(ld, rd, n, p, i, j, 0, Dec { m: 0, e: 0 })
}

/// All cells of the `m x p` product of an `m x n` and an `n x p` matrix.
pub open spec fn spec_matmul_cells(
    m: nat,
    n: nat,
    p: nat,
    ld: Seq<Dec>,
    rd: Seq<Dec>,
) -> Seq<Option<Dec>> {
    Seq::new(m * p, |c: int| spec_dot(ld, rd, n as int, p as int, c / (p as int), c % (p as int)))
}

pub open spec fn all_some(s: Seq<Option<Dec>>) -> bool {
    forall|i: int| 0 <= i < s.len() ==> (#[trigger] s[i]) is Some
}

pub open spec fn unwrap_all(s: Seq<Option<Dec>>) -> Seq<Dec> {
    Seq::new(s.len(), |i: int| s[i]->0)
}

/// The index of the first failing entry, or the length when all succeed.
pub open spec fn first_none(s: Seq<Option<Dec>>, i: int) -> int
    decreases s.len() - i,
{
    if i < 0 || i >= s.len() {
        s.len() as int
    } else if s[i] is None {
        i
    } else {
        first_none(s, i + 1)
    }
}

pub proof fn lemma_first_none(s: Seq<Option<Dec>>, i: int)
    requires
        0 <= i <= s.len(),
    ensures
        i <= first_none(s, i) <= s.len(),
        forall|j: int| i <= j < first_none(s, i) ==> (#[trigger] s[j]) is Some,
        first_none(s, i) < s.len() ==> s[first_none(s, i)] is None,
    decreases s.len() - i,
{
    if i < s.len() && !(s[i] is None) {
        lemma_first_none(s, i + 1);
    }
}

pub open spec fn s_shape(r: nat, c: nat) -> Seq<char> {
    "("@ + spec_nat_str(r) + seq!['\u{d7}'] + spec_nat_str(c) + ")"@
}

pub open spec fn s_div_zero_scalar(op: char, l: Dec, r: Dec) -> Seq<char> {
    "division by zero in scalar operation: "@ + string_of(l) + seq![' '] + seq![op] + seq![' ']
        + string_of(r)
}

pub open spec fn s_div_zero_elem(i: nat) -> Seq<char> {
    "division by zero in element-wise operation at position "@ + spec_nat_str(i)
}

pub open spec fn s_div_zero_broadcast(i: nat) -> Seq<char> {
    "division by zero when broadcasting scalar to matrix at position "@ + spec_nat_str(i)
}

pub open spec fn s_elem_dims(op: char, m1: nat, n1: nat, m2: nat, n2: nat) -> Seq<char> {
    "element-wise operation '"@ + seq![op] + "' requires matching dimensions: got "@ + s_shape(
        m1,
        n1,
    ) + " and "@ + s_shape(m2, n2)
}

pub open spec fn s_matmul_dims(m: nat, n: nat, n2: nat, p: nat) -> Seq<char> {
    "matrix multiplication dimension mismatch: cannot multiply "@ + s_shape(m, n) + " @ "@
        + s_shape(n2, p) + " - inner dimensions "@ + spec_nat_str(n) + " and "@ + spec_nat_str(n2)
        + " must match"@
}

/// What a binary operator yields on two values: matrix multiplication for
/// `@`, otherwise plain arithmetic, element-wise application or scalar
/// broadcasting, with exact error texts.
pub open spec fn spec_binary_op(op: char, left: SpecVal, right: SpecVal) -> Result<
    SpecVal,
    SpecErr,
> {
    if op == '@' {
        match (left, right) {
            (
                SpecVal::Matrix { rows: m, cols: n, data: ld },
                SpecVal::Matrix { rows: n2, cols: p, data: rd },
            ) => {
                if n != n2 {
                    Err(SpecErr::RuntimeError(s_matmul_dims(m, n, n2, p)))
                } else {
                    let cells = spec_matmul_cells(m, n, p, ld, rd);
                    if all_some(cells) {
                        Ok(SpecVal::Matrix { rows: m, cols: p, data: unwrap_all(cells) })
                    } else {
                        Err(SpecErr::RuntimeError("decimal overflow in matrix multiplication"@))
                    }
                }
            },
            (SpecVal::Scalar(_), SpecVal::Scalar(_)) => Err(
                SpecErr::RuntimeError(
                    "cannot use matrix multiplication (@) with two scalar values - use * for scalar multiplication"@,
                ),
            ),
            (SpecVal::Scalar(_), SpecVal::Matrix { rows, cols, .. }) => Err(
                SpecErr::RuntimeError(
                    "cannot use matrix multiplication (@) with scalar on left side and "@ + s_shape(
                        rows,
                        cols,
                    ) + " matrix on right side"@,
                ),
            ),
            (SpecVal::Matrix { rows, cols, .. }, SpecVal::Scalar(_)) => Err(
                SpecErr::RuntimeError(
                    "cannot use matrix multiplication (@) with "@ + s_shape(rows, cols)
                        + " matrix on left side and scalar on right side"@,
                ),
            ),
        }
    } else {
        match (left, right) {
            (SpecVal::Scalar(l), SpecVal::Scalar(r)) => match spec_scalar_op(op, l, r) {
                Some(d) => Ok(SpecVal::Scalar(d)),
                None => Err(SpecErr::RuntimeError(s_div_zero_scalar(op, l, r))),
            },
            (
                SpecVal::Matrix { rows: m1, cols: n1, data: d1 },
                SpecVal::Matrix { rows: m2, cols: n2, data: d2 },
            ) => {
                if m1 != m2 || n1 != n2 {
                    Err(SpecErr::RuntimeError(s_elem_dims(op, m1, n1, m2, n2)))
                } else {
                    let cells = Seq::new(d1.len(), |i: int| spec_scalar_op(op, d1[i], d2[i]));
                    if all_some(cells) {
                        Ok(SpecVal::Matrix { rows: m1, cols: n1, data: unwrap_all(cells) })
                    } else {
                        Err(
                            SpecErr::RuntimeError(
                                s_div_zero_elem(first_none(cells, 0) as nat),
                            ),
                        )
                    }
                }
            },
            (SpecVal::Matrix { rows, cols, data }, SpecVal::Scalar(sc)) => {
                let cells = Seq::new(data.len(), |i: int| spec_scalar_op(op, data[i], sc));
                if all_some(cells) {
                    Ok(SpecVal::Matrix { rows: rows, cols: cols, data: unwrap_all(cells) })
                } else {
                    Err(
                        SpecErr::RuntimeError(
                            s_div_zero_broadcast(first_none(cells, 0) as nat),
                        ),
                    )
                }
            },
            (SpecVal::Scalar(sc), SpecVal::Matrix { rows, cols, data }) => {
                let cells = Seq::new(data.len(), |i: int| spec_scalar_op(op, sc, data[i]));
                if all_some(cells) {
                    Ok(SpecVal::Matrix { rows: rows, cols: cols, data: unwrap_all(cells) })
                } else {
                    Err(
                        SpecErr::RuntimeError(
                            s_div_zero_broadcast(first_none(cells, 0) as nat),
                        ),
                    )
                }
            },
        }
    }
}

} // verus!

verus! {

fn pow10_i128(e: u32) -> (r: i128)
    requires
        e <= 28,
    ensures
        r == pow10(e as nat),
        r >= 1,
{
    proof {
        lemma_pow10_28();
        lemma_pow10_mono(e as nat, 28);
    }
    let mut acc: i128 = 1;
    let mut i: u32 = 0;
    while i < e
        invariant
            0 <= i <= e <= 28,
            acc == pow10(i as nat),
            pow10(28nat) == 0x204fce5e3e25026110000000int,
        decreases e - i,
    {
        proof {
            lemma_pow10_mono((i + 1) as nat, 28);
        }
        acc = acc * 10;
        i = i + 1;
    }
    acc
}

proof fn lemma_pow10_28()
    ensures
        pow10(28nat) == 0x204fce5e3e25026110000000int,
{
    reveal_with_fuel(pow10, 29);
}

proof fn lemma_pow10_mono(a: nat, b: nat)
    requires
        a <= b,
    ensures
        1 <= pow10(a) <= pow10(b),
    decreases b,
{
    if b == 0 {
    } else if a == b {
        lemma_pow10_mono((b - 1) as nat, (b - 1) as nat);
    } else {
        lemma_pow10_mono(a, (b - 1) as nat);
    }
}

proof fn lemma_pow_acc_none(base: Dec, k: nat, j: nat)
    requires
        spec_pow_acc(base, k) is None,
        k <= j,
    ensures
        spec_pow_acc(base, j) is None,
    decreases j,
{
    if j > k {
        lemma_pow_acc_none(base, k, (j - 1) as nat);
    }
}

/// Repeated multiplication by `base`, `n` times, starting at one.
fn pow_acc_exec(base: &Dec, n: u64) -> (r: Option<Dec>)
    requires
        dec_valid(*base),
    ensures
        r == spec_pow_acc(*base, n as nat),
        r is Some ==> dec_valid(r->0),
{
    let mut acc = Dec { m: 1, e: 0 };
    let mut k: u64 = 0;
    while k < n
        invariant
            0 <= k <= n,
            dec_valid(*base),
            dec_valid(acc),
            Some(acc) == spec_pow_acc(*base, k as nat),
        decreases n - k,
    {
        match dec_mul(&acc, base) {
            Some(next) => {
                acc = next;
            },
            None => {
                proof {
                    lemma_pow_acc_none(*base, (k + 1) as nat, n as nat);
                }
                return None;
            },
        }
        k = k + 1;
    }
    Some(acc)
}

/// The power operator: repeated multiplication for whole exponents that fit
/// a machine word, reciprocal for negative ones, and the floating-point
/// fallback for everything else.
#[verifier::rlimit(60)]
#[verifier::spinoff_prover]
pub fn decimal_pow(base: &Dec, exp: &Dec) -> (r: Option<Dec>)
    requires
        dec_valid(*base),
        dec_valid(*exp),
    ensures
        r == spec_decimal_pow(*base, *exp),
        r is Some ==> dec_valid(r->0),
{
    let p10 = pow10_i128(exp.e);
    let am: i128 = if exp.m < 0 {
        -exp.m
    } else {
        exp.m
    };
    let qa: i128 = am / p10;
    proof {
        let p = p10 as int;
        let amv = am as int;
        vstd::arithmetic::div_mod::lemma_fundamental_div_mod(amv, p);
        vstd::arithmetic::div_mod::lemma_mod_bound(amv, p);
        assert(amv == p * (amv / p) + amv % p);
        assert(qa as int * p == amv - amv % p) by (nonlinear_arith)
            requires
                amv == p * (qa as int) + amv % p,
        ;
    }
    let divisible = qa * p10 == am;
    proof {
        let p = p10 as int;
        let m = exp.m as int;
        vstd::arithmetic::div_mod::lemma_fundamental_div_mod(am as int, p);
        if divisible {
            // am is a multiple of p, hence so is m.
            if m < 0 {
                assert(m == (-(qa as int)) * p) by (nonlinear_arith)
                    requires
                        qa as int * p == (-m),
                ;
                vstd::arithmetic::div_mod::lemma_mod_multiples_basic(-(qa as int), p);
            } else {
                vstd::arithmetic::div_mod::lemma_mod_multiples_basic(qa as int, p);
            }
            assert(m % p == 0);
        } else {
            // m is not a multiple of p.
            if m % p == 0 {
                let q = m / p;
                vstd::arithmetic::div_mod::lemma_fundamental_div_mod(m, p);
                assert(m == p * q + m % p);
                if m < 0 {
                    assert(am == (-q) * p) by (nonlinear_arith)
                        requires
                            m == p * q,
                            am as int == -m,
                    ;
                    vstd::arithmetic::div_mod::lemma_fundamental_div_mod_converse(
                        am as int,
                        p,
                        -q,
                        0,
                    );
                    assert(qa as int == -q);
                    assert(false) by (nonlinear_arith)
                        requires
                            qa as int * p == am as int - (am as int % p),
                            am as int == (-q) * p,
                            qa as int == -q,
                            !(qa as int * p == am as int),
                    ;
                } else {
                    vstd::arithmetic::div_mod::lemma_fundamental_div_mod_converse(am as int, p, q, 0);
                    assert(false) by (nonlinear_arith)
                        requires
                            qa as int * p == am as int - (am as int % p),
                            am as int == p * q,
                            qa as int == q,
                            !(qa as int * p == am as int),
                    ;
                }
            }
        }
    }
    if divisible {
        // The exponent is a whole number: q is its value.
        let q: i128 = if exp.m < 0 {
            -qa
        } else {
            qa
        };
        proof {
            let p = p10 as int;
            let m = exp.m as int;
            vstd::arithmetic::div_mod::lemma_fundamental_div_mod_converse(
                m,
                p,
                q as int,
                0,
            );
            assert(q == m / p);
        }
        if 0 <= q && q <= i64::MAX as i128 {
            pow_acc_exec(base, q as u64)
        } else if i64::MIN as i128 <= q && q < 0 {
            match pow_acc_exec(base, (-q) as u64) {
                None => None,
                Some(r) => {
                    if r.m == 0 {
                        None
                    } else {
                        dec_div(&Dec { m: 1, e: 0 }, &r)
                    }
                },
            }
        } else {
            dec_powf(base, exp)
        }
    } else {
        dec_powf(base, exp)
    }
}

/// One scalar application of `+ - * / ^`; `None` reports a zero divisor or
/// an unrepresentable result.
pub fn apply_scalar_op(op: char, left: &Dec, right: &Dec) -> (r: Option<Dec>)
    requires
        dec_valid(*left),
        dec_valid(*right),
    ensures
        r == spec_scalar_op(op, *left, *right),
        r is Some ==> dec_valid(r->0),
        op == '+' ==> ((r is Some <==> spec_scalar_op('+', *right, *left) is Some) && (r is Some
            ==> crate::decimal::spec_dec_eq(r->0, spec_scalar_op('+', *right, *left)->0))),
{
    if op == '+' {
        dec_add(left, right)
    } else if op == '-' {
        dec_sub(left, right)
    } else if op == '*' {
        dec_mul(left, right)
    } else if op == '/' {
        if right.m == 0 {
            None
        } else {
            dec_div(left, right)
        }
    } else if op == '^' {
        decimal_pow(left, right)
    } else {
        None
    }
}

} // verus!

verus! {

/// Computes the matrix product entries, or reports that some entry
/// overflows.
#[verifier::rlimit(100)]
#[verifier::spinoff_prover]
fn matmul_exec(m: usize, n: usize, p: usize, ld: &Vec<Dec>, rd: &Vec<Dec>) -> (r: Option<
    Vec<Dec>,
>)
    requires
        ld@.len() == m * n,
        rd@.len() == n * p,
        decs_valid(ld@),
        decs_valid(rd@),
    ensures
        (r is Some <==> all_some(spec_matmul_cells(m as nat, n as nat, p as nat, ld@, rd@))),
        r is Some ==> r->0@ == unwrap_all(
            spec_matmul_cells(m as nat, n as nat, p as nat, ld@, rd@),
        ) && decs_valid(r->0@),
{
    let ghost cells = spec_matmul_cells(m as nat, n as nat, p as nat, ld@, rd@);
    let lt = ld.len();
    let rt = rd.len();
    let mut out: Vec<Dec> = Vec::new();
    let mut i: usize = 0;
    proof {
        assert(out@ =~= unwrap_all(cells).take(0));
    }
    while i < m
        invariant
            0 <= i <= m,
            lt == ld@.len(),
            rt == rd@.len(),
            ld@.len() == m * n,
            rd@.len() == n * p,
            decs_valid(ld@),
            decs_valid(rd@),
            cells == spec_matmul_cells(m as nat, n as nat, p as nat, ld@, rd@),
            decs_valid(out@),
            out@ == unwrap_all(cells).take((i * p) as int),
            i * p <= m * p,
            forall|c: int| 0 <= c < i * p ==> (#[trigger] cells[c]) is Some,
        decreases m - i,
    {
        let mut j: usize = 0;
        proof {
            assert(i * p + p <= m * p) by (nonlinear_arith)
                requires
                    i < m,
                    p >= 0,
            ;
        }
        while j < p
            invariant
                0 <= j <= p,
                0 <= i < m,
                lt == ld@.len(),
                rt == rd@.len(),
                ld@.len() == m * n,
                rd@.len() == n * p,
                decs_valid(ld@),
                decs_valid(rd@),
                cells == spec_matmul_cells(m as nat, n as nat, p as nat, ld@, rd@),
                decs_valid(out@),
                out@ == unwrap_all(cells).take((i * p + j) as int),
                i * p + p <= m * p,
                forall|c: int| 0 <= c < i * p + j ==> (#[trigger] cells[c]) is Some,
            decreases p - j,
        {
            let ghost c = (i * p + j) as int;
            proof {
                assert(c / (p as int) == i as int && c % (p as int) == j as int)
                    by (nonlinear_arith)
                    requires
                        c == i * p + j,
                        0 <= (j as int) < p as int,
                        0 <= i as int,
                ;
                assert(cells[c] == spec_dot(ld@, rd@, n as int, p as int, i as int, j as int));
            }
            let mut acc = Dec { m: 0, e: 0 };
            let mut k: usize = 0;
            while k < n
                invariant
                    0 <= k <= n,
                    0 <= i < m,
                    0 <= j < p,
                    lt == ld@.len(),
                    rt == rd@.len(),
                    ld@.len() == m * n,
                    rd@.len() == n * p,
                    decs_valid(ld@),
                    decs_valid(rd@),
                    dec_valid(acc),
                    cells == spec_matmul_cells(m as nat, n as nat, p as nat, ld@, rd@),
                    cells[(i * p + j) as int] == spec_dot(
                        ld@,
                        rd@,
                        n as int,
                        p as int,
                        i as int,
                        j as int,
                    ),
                    spec_dot(ld@, rd@, n as int, p as int, i as int, j as int) == spec_dot_from(
                        ld@,
                        rd@,
                        n as int,
                        p as int,
                        i as int,
                        j as int,
                        k as int,
                        acc,
                    ),
                    i * p + j < m * p,
                decreases n - k,
            {
                proof {
                    assert(i * n + k < m * n && k * p + j < n * p) by (nonlinear_arith)
                        requires
                            0 <= i < m,
                            0 <= j < p,
                            0 <= k < n,
                    ;
                }
                let prod = match dec_mul(&ld[i * n + k], &rd[k * p + j]) {
                    Some(x) => x,
                    None => {
                        proof {
                            assert(cells[(i * p + j) as int] is None);
                            assert(!all_some(cells));
                        }
                        return None;
                    },
                };
                let next = match dec_add(&acc, &prod) {
                    Some(x) => x,
                    None => {
                        proof {
                            assert(cells[(i * p + j) as int] is None);
                            assert(!all_some(cells));
                        }
                        return None;
                    },
                };
                acc = next;
                k = k + 1;
            }
            proof {
                assert(cells[c] == Some(acc));
            }
            out.push(acc);
            proof {
                assert(out@ =~= unwrap_all(cells).take(c + 1));
            }
            j = j + 1;
        }
        proof {
            assert((i + 1) * p == i * p + p) by (nonlinear_arith);
        }
        i = i + 1;
    }
    proof {
        assert(out@ =~= unwrap_all(cells));
        assert forall|c: int| 0 <= c < cells.len() implies (#[trigger] cells[c]) is Some by {
            assert(m * p == cells.len());
        }
    }
    Some(out)
}

/// Element-wise application over two equal-length data vectors; reports the
/// first failing position.
fn elementwise_exec(op: char, d1: &Vec<Dec>, d2: &Vec<Dec>) -> (r: Result<Vec<Dec>, usize>)
    requires
        d1@.len() == d2@.len(),
        decs_valid(d1@),
        decs_valid(d2@),
    ensures
        ({
            let cells = Seq::new(d1@.len(), |i: int| spec_scalar_op(op, d1@[i], d2@[i]));
            &&& (r is Ok <==> all_some(cells))
            &&& (r matches Ok(v) ==> v@ == unwrap_all(cells) && decs_valid(v@))
            &&& (r matches Err(i) ==> i == first_none(cells, 0) && i < cells.len())
        }),
{
    let ghost cells = Seq::new(d1@.len(), |i: int| spec_scalar_op(op, d1@[i], d2@[i]));
    let mut out: Vec<Dec> = Vec::new();
    let mut i: usize = 0;
    proof {
        assert(out@ =~= unwrap_all(cells).take(0));
        lemma_first_none(cells, 0);
    }
    while i < d1.len()
        invariant
            0 <= i <= d1@.len(),
            d1@.len() == d2@.len(),
            decs_valid(d1@),
            decs_valid(d2@),
            cells == Seq::new(d1@.len(), |k: int| spec_scalar_op(op, d1@[k], d2@[k])),
            decs_valid(out@),
            out@ == unwrap_all(cells).take(i as int),
            forall|k: int| 0 <= k < i ==> (#[trigger] cells[k]) is Some,
        decreases d1@.len() - i,
    {
        match apply_scalar_op(op, &d1[i], &d2[i]) {
            Some(v) => {
                out.push(v);
                proof {
                    assert(out@ =~= unwrap_all(cells).take(i + 1));
                }
            },
            None => {
                proof {
                    assert(cells[i as int] is None);
                    assert(!all_some(cells));
                    lemma_first_none(cells, 0);
                    assert(first_none(cells, 0) == i as int);
                }
                return Err(i);
            },
        }
        i = i + 1;
    }
    proof {
        assert(out@ =~= unwrap_all(cells));
    }
    Ok(out)
}

/// Broadcasts `op` with the scalar on the right: `data[i] op sc`.
fn broadcast_ms_exec(op: char, data: &Vec<Dec>, sc: &Dec) -> (r: Result<Vec<Dec>, usize>)
    requires
        decs_valid(data@),
        dec_valid(*sc),
    ensures
        ({
            let cells = Seq::new(data@.len(), |i: int| spec_scalar_op(op, data@[i], *sc));
            let flip = Seq::new(data@.len(), |i: int| spec_scalar_op(op, *sc, data@[i]));
            &&& (r is Ok <==> all_some(cells))
            &&& (r matches Ok(v) ==> v@ == unwrap_all(cells) && decs_valid(v@))
            &&& (r matches Err(i) ==> i == first_none(cells, 0) && i < cells.len())
            &&& (op == '+' ==> ((all_some(cells) <==> all_some(flip)) && (all_some(cells)
                ==> forall|k: int|
                    0 <= k < cells.len() ==> crate::decimal::spec_dec_eq(
                        #[trigger] unwrap_all(cells)[k],
                        unwrap_all(flip)[k],
                    ))))
        }),
{
    let ghost cells = Seq::new(data@.len(), |i: int| spec_scalar_op(op, data@[i], *sc));
    let ghost flip = Seq::new(data@.len(), |i: int| spec_scalar_op(op, *sc, data@[i]));
    let mut out: Vec<Dec> = Vec::new();
    let mut i: usize = 0;
    proof {
        assert(out@ =~= unwrap_all(cells).take(0));
    }
    while i < data.len()
        invariant
            0 <= i <= data@.len(),
            decs_valid(data@),
            dec_valid(*sc),
            cells == Seq::new(data@.len(), |k: int| spec_scalar_op(op, data@[k], *sc)),
            flip == Seq::new(data@.len(), |k: int| spec_scalar_op(op, *sc, data@[k])),
            decs_valid(out@),
            out@ == unwrap_all(cells).take(i as int),
            forall|k: int| 0 <= k < i ==> (#[trigger] cells[k]) is Some,
            op == '+' ==> forall|k: int|
                0 <= k < i ==> ((#[trigger] cells[k]) is Some <==> flip[k] is Some) && (cells[k]
                    is Some ==> crate::decimal::spec_dec_eq(cells[k]->0, flip[k]->0)),
        decreases data@.len() - i,
    {
        match apply_scalar_op(op, &data[i], sc) {
            Some(v) => {
                out.push(v);
                proof {
                    assert(out@ =~= unwrap_all(cells).take(i + 1));
                }
            },
            None => {
                proof {
                    assert(cells[i as int] is None);
                    assert(!all_some(cells));
                    lemma_first_none(cells, 0);
                    assert(first_none(cells, 0) == i as int);
                    if op == '+' {
                        assert(flip[i as int] is None);
                        assert(!all_some(flip));
                    }
                }
                return Err(i);
            },
        }
        i = i + 1;
    }
    proof {
        assert(out@ =~= unwrap_all(cells));
        if op == '+' {
            assert forall|k: int|
                0 <= k < cells.len() implies crate::decimal::spec_dec_eq(
                #[trigger] unwrap_all(cells)[k],
                unwrap_all(flip)[k],
            ) by {
                assert(cells[k] is Some && (cells[k] is Some <==> flip[k] is Some));
            }
            assert forall|k: int| 0 <= k < flip.len() implies (#[trigger] flip[k]) is Some by {
                assert(cells[k] is Some);
            }
        }
    }
    Ok(out)
}

/// Broadcasts `op` with the scalar on the left: `sc op data[i]`.
fn broadcast_sm_exec(op: char, sc: &Dec, data: &Vec<Dec>) -> (r: Result<Vec<Dec>, usize>)
    requires
        decs_valid(data@),
        dec_valid(*sc),
    ensures
        ({
            let cells = Seq::new(data@.len(), |i: int| spec_scalar_op(op, *sc, data@[i]));
            let flip = Seq::new(data@.len(), |i: int| spec_scalar_op(op, data@[i], *sc));
            &&& (r is Ok <==> all_some(cells))
            &&& (r matches Ok(v) ==> v@ == unwrap_all(cells) && decs_valid(v@))
            &&& (r matches Err(i) ==> i == first_none(cells, 0) && i < cells.len())
            &&& (op == '+' ==> ((all_some(cells) <==> all_some(flip)) && (all_some(cells)
                ==> forall|k: int|
                    0 <= k < cells.len() ==> crate::decimal::spec_dec_eq(
                        #[trigger] unwrap_all(cells)[k],
                        unwrap_all(flip)[k],
                    ))))
        }),
{
    let ghost cells = Seq::new(data@.len(), |i: int| spec_scalar_op(op, *sc, data@[i]));
    let ghost flip = Seq::new(data@.len(), |i: int| spec_scalar_op(op, data@[i], *sc));
    let mut out: Vec<Dec> = Vec::new();
    let mut i: usize = 0;
    proof {
        assert(out@ =~= unwrap_all(cells).take(0));
    }
    while i < data.len()
        invariant
            0 <= i <= data@.len(),
            decs_valid(data@),
            dec_valid(*sc),
            cells == Seq::new(data@.len(), |k: int| spec_scalar_op(op, *sc, data@[k])),
            flip == Seq::new(data@.len(), |k: int| spec_scalar_op(op, data@[k], *sc)),
            decs_valid(out@),
            out@ == unwrap_all(cells).take(i as int),
            forall|k: int| 0 <= k < i ==> (#[trigger] cells[k]) is Some,
            op == '+' ==> forall|k: int|
                0 <= k < i ==> ((#[trigger] cells[k]) is Some <==> flip[k] is Some) && (cells[k]
                    is Some ==> crate::decimal::spec_dec_eq(cells[k]->0, flip[k]->0)),
        decreases data@.len() - i,
    {
        match apply_scalar_op(op, sc, &data[i]) {
            Some(v) => {
                out.push(v);
                proof {
                    assert(out@ =~= unwrap_all(cells).take(i + 1));
                }
            },
            None => {
                proof {
                    assert(cells[i as int] is None);
                    assert(!all_some(cells));
                    lemma_first_none(cells, 0);
                    assert(first_none(cells, 0) == i as int);
                    if op == '+' {
                        assert(flip[i as int] is None);
                        assert(!all_some(flip));
                    }
                }
                return Err(i);
            },
        }
        i = i + 1;
    }
    proof {
        assert(out@ =~= unwrap_all(cells));
        if op == '+' {
            assert forall|k: int|
                0 <= k < cells.len() implies crate::decimal::spec_dec_eq(
                #[trigger] unwrap_all(cells)[k],
                unwrap_all(flip)[k],
            ) by {
                assert(cells[k] is Some && (cells[k] is Some <==> flip[k] is Some));
            }
            assert forall|k: int| 0 <= k < flip.len() implies (#[trigger] flip[k]) is Some by {
                assert(cells[k] is Some);
            }
        }
    }
    Ok(out)
}

} // verus!

verus! {

fn shape_chars(r: usize, c: usize) -> (v: Vec<char>)
    ensures
        v@ == s_shape(r as nat, c as nat),
{
    let mut out = str_chars("(");
    let a = usize_to_chars(r);
    append_chars(&mut out, &a);
    out.push('\u{d7}');
    let b = usize_to_chars(c);
    append_chars(&mut out, &b);
    let d = str_chars(")");
    append_chars(&mut out, &d);
    proof {
        assert(out@ =~= s_shape(r as nat, c as nat));
    }
    out
}

/// Evaluates one binary operator on two values.
///
/// Besides the exact semantics (`spec_binary_op`), the contract records two
/// laws: matrix multiplication succeeds only on matrices with matching
/// inner dimensions and then has the outer shape; and adding a scalar to a
/// matrix from either side succeeds the same way and gives numerically
/// equal entries.
#[verifier::rlimit(100)]
#[verifier::spinoff_prover]
pub fn evaluate_operation(op: char, left: Value, right: Value) -> (r: Result<Value, FormulaError>)
    requires
        sv_wf(left@),
        sv_wf(right@),
    ensures
        (match spec_binary_op(op, left@, right@) {
            Ok(sv) => r matches Ok(v) && v@ == sv && sv_wf(sv),
            Err(se) => r matches Err(e) && e@ == se,
        }),
        (op == '@' && left@ is Matrix && right@ is Matrix && left@->Matrix_cols
            == right@->Matrix_rows && r is Ok) ==> (r->Ok_0@ is Matrix && r->Ok_0@->Matrix_rows
            == left@->Matrix_rows && r->Ok_0@->Matrix_cols == right@->Matrix_cols),
        (op == '@' && !(left@ is Matrix && right@ is Matrix && left@->Matrix_cols
            == right@->Matrix_rows)) ==> r is Err,
        (op == '+' && left@ is Scalar && right@ is Matrix) ==> ((r is Ok <==> spec_binary_op(
            '+',
            right@,
            left@,
        ) is Ok) && (r matches Ok(v) ==> crate::table::formula::types::sv_num_eq(
            v@,
            spec_binary_op('+', right@, left@)->Ok_0,
        ))),
        (op == '+' && left@ is Matrix && right@ is Scalar) ==> ((r is Ok <==> spec_binary_op(
            '+',
            right@,
            left@,
        ) is Ok) && (r matches Ok(v) ==> crate::table::formula::types::sv_num_eq(
            v@,
            spec_binary_op('+', right@, left@)->Ok_0,
        ))),
{
    let ghost lv = left@;
    let ghost rv = right@;
    if op == '@' {
        match left {
            Value::Matrix { rows: m, cols: n, data: ld } => match right {
                Value::Matrix { rows: n2, cols: p, data: rd } => {
                    if n != n2 {
                        let mut msg = str_chars(
                            "matrix multiplication dimension mismatch: cannot multiply ",
                        );
                        let s1 = shape_chars(m, n);
                        append_chars(&mut msg, &s1);
                        let mid = str_chars(" @ ");
                        append_chars(&mut msg, &mid);
                        let s2 = shape_chars(n2, p);
                        append_chars(&mut msg, &s2);
                        let mid2 = str_chars(" - inner dimensions ");
                        append_chars(&mut msg, &mid2);
                        let a = usize_to_chars(n);
                        append_chars(&mut msg, &a);
                        let mid3 = str_chars(" and ");
                        append_chars(&mut msg, &mid3);
                        let b = usize_to_chars(n2);
                        append_chars(&mut msg, &b);
                        let tail = str_chars(" must match");
                        append_chars(&mut msg, &tail);
                        proof {
                            assert(msg@ =~= s_matmul_dims(m as nat, n as nat, n2 as nat, p as nat));
                        }
                        Err(FormulaError::RuntimeError(chars_string(&msg)))
                    } else {
                        match matmul_exec(m, n, p, &ld, &rd) {
                            Some(data) => {
                                proof {
                                    assert(data@.len() == (m * p) as nat);
                                }
                                Ok(Value::Matrix { rows: m, cols: p, data })
                            },
                            None => Err(
                                FormulaError::RuntimeError(
                                    String::from_str("decimal overflow in matrix multiplication"),
                                ),
                            ),
                        }
                    }
                },
                Value::Scalar(_) => {
                    let mut msg = str_chars("cannot use matrix multiplication (@) with ");
                    let s1 = shape_chars(m, n);
                    append_chars(&mut msg, &s1);
                    let tail = str_chars(" matrix on left side and scalar on right side");
                    append_chars(&mut msg, &tail);
                    proof {
                        assert(msg@ =~= "cannot use matrix multiplication (@) with "@ + s_shape(
                            m as nat,
                            n as nat,
                        ) + " matrix on left side and scalar on right side"@);
                    }
                    Err(FormulaError::RuntimeError(chars_string(&msg)))
                },
            },
            Value::Scalar(_) => match right {
                Value::Scalar(_) => Err(
                    FormulaError::RuntimeError(
                        String::from_str(
                            "cannot use matrix multiplication (@) with two scalar values - use * for scalar multiplication",
                        ),
                    ),
                ),
                Value::Matrix { rows, cols, .. } => {
                    let mut msg = str_chars(
                        "cannot use matrix multiplication (@) with scalar on left side and ",
                    );
                    let s1 = shape_chars(rows, cols);
                    append_chars(&mut msg, &s1);
                    let tail = str_chars(" matrix on right side");
                    append_chars(&mut msg, &tail);
                    proof {
                        assert(msg@
                            =~= "cannot use matrix multiplication (@) with scalar on left side and "@
                            + s_shape(rows as nat, cols as nat) + " matrix on right side"@);
                    }
                    Err(FormulaError::RuntimeError(chars_string(&msg)))
                },
            },
        }
    } else {
        match left {
            Value::Scalar(l) => match right {
                Value::Scalar(rr) => match apply_scalar_op(op, &l, &rr) {
                    Some(d) => Ok(Value::Scalar(d)),
                    None => {
                        let mut msg = str_chars("division by zero in scalar operation: ");
                        let ls = dec_to_string(&l);
                        let lsv = str_chars(ls.as_str());
                        append_chars(&mut msg, &lsv);
                        msg.push(' ');
                        msg.push(op);
                        msg.push(' ');
                        let rs = dec_to_string(&rr);
                        let rsv = str_chars(rs.as_str());
                        append_chars(&mut msg, &rsv);
                        proof {
                            assert(msg@ =~= s_div_zero_scalar(op, l, rr));
                        }
                        Err(FormulaError::RuntimeError(chars_string(&msg)))
                    },
                },
                Value::Matrix { rows, cols, data } => match broadcast_sm_exec(op, &l, &data) {
                    Ok(out) => Ok(Value::Matrix { rows, cols, data: out }),
                    Err(i) => {
                        let mut msg = str_chars(
                            "division by zero when broadcasting scalar to matrix at position ",
                        );
                        let iv = usize_to_chars(i);
                        append_chars(&mut msg, &iv);
                        proof {
                            assert(msg@ =~= s_div_zero_broadcast(i as nat));
                        }
                        Err(FormulaError::RuntimeError(chars_string(&msg)))
                    },
                },
            },
            Value::Matrix { rows: m1, cols: n1, data: d1 } => match right {
                Value::Scalar(sc) => match broadcast_ms_exec(op, &d1, &sc) {
                    Ok(out) => Ok(Value::Matrix { rows: m1, cols: n1, data: out }),
                    Err(i) => {
                        let mut msg = str_chars(
                            "division by zero when broadcasting scalar to matrix at position ",
                        );
                        let iv = usize_to_chars(i);
                        append_chars(&mut msg, &iv);
                        proof {
                            assert(msg@ =~= s_div_zero_broadcast(i as nat));
                        }
                        Err(FormulaError::RuntimeError(chars_string(&msg)))
                    },
                },
                Value::Matrix { rows: m2, cols: n2, data: d2 } => {
                    if m1 != m2 || n1 != n2 {
                        let mut msg = str_chars("element-wise operation '");
                        msg.push(op);
                        let mid = str_chars("' requires matching dimensions: got ");
                        append_chars(&mut msg, &mid);
                        let s1 = shape_chars(m1, n1);
                        append_chars(&mut msg, &s1);
                        let mid2 = str_chars(" and ");
                        append_chars(&mut msg, &mid2);
                        let s2 = shape_chars(m2, n2);
                        append_chars(&mut msg, &s2);
                        proof {
                            assert(msg@ =~= s_elem_dims(
                                op,
                                m1 as nat,
                                n1 as nat,
                                m2 as nat,
                                n2 as nat,
                            ));
                        }
                        Err(FormulaError::RuntimeError(chars_string(&msg)))
                    } else {
                        proof {
                            assert(d1@.len() == d2@.len()) by {
                                assert(d1@.len() == (m1 * n1) as nat);
                                assert(d2@.len() == (m2 * n2) as nat);
                            };
                        }
                        match elementwise_exec(op, &d1, &d2) {
                            Ok(out) => Ok(Value::Matrix { rows: m1, cols: n1, data: out }),
                            Err(i) => {
                                let mut msg = str_chars(
                                    "division by zero in element-wise operation at position ",
                                );
                                let iv = usize_to_chars(i);
                                append_chars(&mut msg, &iv);
                                proof {
                                    assert(msg@ =~= s_div_zero_elem(i as nat));
                                }
                                Err(FormulaError::RuntimeError(chars_string(&msg)))
                            },
                        }
                    }
                },
            },
        }
    }
}

} // verus!

verus! {

pub open spec fn fold_add(data: Seq<Dec>, i: int, acc: Dec) -> Option<Dec>
    decreases data.len() - i,
{
    if i < 0 || i >= data.len() {
        Some(acc)
    } else {
        match add_of(acc, data[i]) {
            None => None,
            Some(s) => fold_add(data, i + 1, s),
        }
    }
}

pub open spec fn fold_mul(data: Seq<Dec>, i: int, acc: Dec) -> Option<Dec>
    decreases data.len() - i,
{
    if i < 0 || i >= data.len() {
        Some(acc)
    } else {
        match mul_of(acc, data[i]) {
            None => None,
            Some(s) => fold_mul(data, i + 1, s),
        }
    }
}

pub open spec fn fold_min(data: Seq<Dec>, i: int, acc: Dec) -> Dec
    decreases data.len() - i,
{
    if i < 0 || i >= data.len() {
        acc
    } else {
        fold_min(
            data,
            i + 1,
            if spec_dec_lt(data[i], acc) {
                data[i]
            } else {
                acc
            },
        )
    }
}

pub open spec fn fold_max(data: Seq<Dec>, i: int, acc: Dec) -> Dec
    decreases data.len() - i,
{
    if i < 0 || i >= data.len() {
        acc
    } else {
        fold_max(
            data,
            i + 1,
            if spec_dec_lt(acc, data[i]) {
                data[i]
            } else {
                acc
            },
        )
    }
}

pub open spec fn kw(s: Seq<char>) -> Seq<char> {
    s.map_values(|c: char| to_lower(c))
}

pub open spec fn s_overflow_aggregate() -> Seq<char> {
    "decimal overflow in aggregate function"@
}

/// The aggregate functions: a scalar passes through (`count` gives one); a
/// matrix folds over its flat data in row-major order.
pub open spec fn spec_eval_function(name: Seq<char>, arg: SpecVal) -> Result<SpecVal, SpecErr> {
    let ln = kw(name);
    if ln == seq!['s', 'u', 'm'] {
        match arg {
            SpecVal::Scalar(s) => Ok(SpecVal::Scalar(s)),
            SpecVal::Matrix { data, .. } => match fold_add(data, 0, Dec { m: 0, e: 0 }) {
                Some(s) => Ok(SpecVal::Scalar(s)),
                None => Err(SpecErr::RuntimeError(s_overflow_aggregate())),
            },
        }
    } else if ln == seq!['a', 'v', 'g'] {
        match arg {
            SpecVal::Scalar(s) => Ok(SpecVal::Scalar(s)),
            SpecVal::Matrix { data, .. } => {
                if data.len() == 0 {
                    Ok(SpecVal::Scalar(Dec { m: 0, e: 0 }))
                } else {
                    match fold_add(data, 0, Dec { m: 0, e: 0 }) {
                        Some(s) => match div_of(s, Dec { m: data.len() as i128, e: 0 }) {
                            Some(q) => Ok(SpecVal::Scalar(q)),
                            None => Err(SpecErr::RuntimeError(s_overflow_aggregate())),
                        },
                        None => Err(SpecErr::RuntimeError(s_overflow_aggregate())),
                    }
                }
            },
        }
    } else if ln == seq!['m', 'i', 'n'] {
        match arg {
            SpecVal::Scalar(s) => Ok(SpecVal::Scalar(s)),
            SpecVal::Matrix { data, .. } => {
                if data.len() == 0 {
                    Ok(SpecVal::Scalar(Dec { m: 0, e: 0 }))
                } else {
                    Ok(SpecVal::Scalar(fold_min(data, 0, data[0])))
                }
            },
        }
    } else if ln == seq!['m', 'a', 'x'] {
        match arg {
            SpecVal::Scalar(s) => Ok(SpecVal::Scalar(s)),
            SpecVal::Matrix { data, .. } => {
                if data.len() == 0 {
                    Ok(SpecVal::Scalar(Dec { m: 0, e: 0 }))
                } else {
                    Ok(SpecVal::Scalar(fold_max(data, 0, data[0])))
                }
            },
        }
    } else if ln == seq!['c', 'o', 'u', 'n', 't'] {
        match arg {
            SpecVal::Scalar(_) => Ok(SpecVal::Scalar(Dec { m: 1, e: 0 })),
            SpecVal::Matrix { data, .. } => Ok(
                SpecVal::Scalar(Dec { m: data.len() as i128, e: 0 }),
            ),
        }
    } else if ln == seq!['p', 'r', 'o', 'd'] {
        match arg {
            SpecVal::Scalar(s) => Ok(SpecVal::Scalar(s)),
            SpecVal::Matrix { data, .. } => match fold_mul(data, 0, Dec { m: 1, e: 0 }) {
                Some(s) => Ok(SpecVal::Scalar(s)),
                None => Err(SpecErr::RuntimeError(s_overflow_aggregate())),
            },
        }
    } else {
        Err(SpecErr::RuntimeError("unknown function: '"@ + name + "'"@))
    }
}

fn fold_add_exec(data: &Vec<Dec>) -> (r: Option<Dec>)
    requires
        decs_valid(data@),
    ensures
        r == fold_add(data@, 0, Dec { m: 0, e: 0 }),
        r is Some ==> dec_valid(r->0),
{
    let mut acc = Dec { m: 0, e: 0 };
    let mut i: usize = 0;
    while i < data.len()
        invariant
            0 <= i <= data@.len(),
            decs_valid(data@),
            dec_valid(acc),
            fold_add(data@, 0, Dec { m: 0, e: 0 }) == fold_add(data@, i as int, acc),
        decreases data@.len() - i,
    {
        match dec_add(&acc, &data[i]) {
            Some(s) => {
                acc = s;
            },
            None => {
                return None;
            },
        }
        i = i + 1;
    }
    Some(acc)
}

fn fold_mul_exec(data: &Vec<Dec>) -> (r: Option<Dec>)
    requires
        decs_valid(data@),
    ensures
        r == fold_mul(data@, 0, Dec { m: 1, e: 0 }),
        r is Some ==> dec_valid(r->0),
{
    let mut acc = Dec { m: 1, e: 0 };
    let mut i: usize = 0;
    while i < data.len()
        invariant
            0 <= i <= data@.len(),
            decs_valid(data@),
            dec_valid(acc),
            fold_mul(data@, 0, Dec { m: 1, e: 0 }) == fold_mul(data@, i as int, acc),
        decreases data@.len() - i,
    {
        match dec_mul(&acc, &data[i]) {
            Some(s) => {
                acc = s;
            },
            None => {
                return None;
            },
        }
        i = i + 1;
    }
    Some(acc)
}

fn fold_min_exec(data: &Vec<Dec>) -> (r: Dec)
    requires
        decs_valid(data@),
        data@.len() > 0,
    ensures
        r == fold_min(data@, 0, data@[0]),
        dec_valid(r),
{
    let mut acc = data[0];
    let mut i: usize = 0;
    while i < data.len()
        invariant
            0 <= i <= data@.len(),
            decs_valid(data@),
            dec_valid(acc),
            data@.len() > 0,
            fold_min(data@, 0, data@[0]) == fold_min(data@, i as int, acc),
        decreases data@.len() - i,
    {
        if dec_lt(&data[i], &acc) {
            acc = data[i];
        }
        i = i + 1;
    }
    acc
}

fn fold_max_exec(data: &Vec<Dec>) -> (r: Dec)
    requires
        decs_valid(data@),
        data@.len() > 0,
    ensures
        r == fold_max(data@, 0, data@[0]),
        dec_valid(r),
{
    let mut acc = data[0];
    let mut i: usize = 0;
    while i < data.len()
        invariant
            0 <= i <= data@.len(),
            decs_valid(data@),
            dec_valid(acc),
            data@.len() > 0,
            fold_max(data@, 0, data@[0]) == fold_max(data@, i as int, acc),
        decreases data@.len() - i,
    {
        if dec_lt(&acc, &data[i]) {
            acc = data[i];
        }
        i = i + 1;
    }
    acc
}

/// Applies one aggregate function to an evaluated argument.
#[verifier::rlimit(60)]
#[verifier::spinoff_prover]
pub fn eval_function(name: &str, arg: Value) -> (r: Result<Value, FormulaError>)
    requires
        sv_wf(arg@),
    ensures
        (match spec_eval_function(name@, arg@) {
            Ok(sv) => r matches Ok(v) && v@ == sv && sv_wf(sv),
            Err(se) => r matches Err(e) && e@ == se,
        }),
{
    let raw = str_chars(name);
    let ln = to_lower_chars(&raw);
    let k_sum = vec!['s', 'u', 'm'];
    let k_avg = vec!['a', 'v', 'g'];
    let k_min = vec!['m', 'i', 'n'];
    let k_max = vec!['m', 'a', 'x'];
    let k_count = vec!['c', 'o', 'u', 'n', 't'];
    let k_prod = vec!['p', 'r', 'o', 'd'];
    proof {
        assert(k_sum@ =~= seq!['s', 'u', 'm']);
        assert(k_avg@ =~= seq!['a', 'v', 'g']);
        assert(k_min@ =~= seq!['m', 'i', 'n']);
        assert(k_max@ =~= seq!['m', 'a', 'x']);
        assert(k_count@ =~= seq!['c', 'o', 'u', 'n', 't']);
        assert(k_prod@ =~= seq!['p', 'r', 'o', 'd']);
    }
    if eq_chars(&ln, &k_sum) {
        match arg {
            Value::Scalar(s) => Ok(Value::Scalar(s)),
            Value::Matrix { data, .. } => match fold_add_exec(&data) {
                Some(s) => Ok(Value::Scalar(s)),
                None => Err(
                    FormulaError::RuntimeError(
                        String::from_str("decimal overflow in aggregate function"),
                    ),
                ),
            },
        }
    } else if eq_chars(&ln, &k_avg) {
        match arg {
            Value::Scalar(s) => Ok(Value::Scalar(s)),
            Value::Matrix { data, .. } => {
                if data.len() == 0 {
                    Ok(Value::Scalar(Dec { m: 0, e: 0 }))
                } else {
                    match fold_add_exec(&data) {
                        Some(s) => {
                            let count = Dec { m: data.len() as i128, e: 0 };
                            match dec_div(&s, &count) {
                                Some(q) => Ok(Value::Scalar(q)),
                                None => Err(
                                    FormulaError::RuntimeError(
                                        String::from_str(
                                            "decimal overflow in aggregate function",
                                        ),
                                    ),
                                ),
                            }
                        },
                        None => Err(
                            FormulaError::RuntimeError(
                                String::from_str("decimal overflow in aggregate function"),
                            ),
                        ),
                    }
                }
            },
        }
    } else if eq_chars(&ln, &k_min) {
        match arg {
            Value::Scalar(s) => Ok(Value::Scalar(s)),
            Value::Matrix { data, .. } => {
                if data.len() == 0 {
                    Ok(Value::Scalar(Dec { m: 0, e: 0 }))
                } else {
                    Ok(Value::Scalar(fold_min_exec(&data)))
                }
            },
        }
    } else if eq_chars(&ln, &k_max) {
        match arg {
            Value::Scalar(s) => Ok(Value::Scalar(s)),
            Value::Matrix { data, .. } => {
                if data.len() == 0 {
                    Ok(Value::Scalar(Dec { m: 0, e: 0 }))
                } else {
                    Ok(Value::Scalar(fold_max_exec(&data)))
                }
            },
        }
    } else if eq_chars(&ln, &k_count) {
        match arg {
            Value::Scalar(_) => Ok(Value::Scalar(Dec { m: 1, e: 0 })),
            Value::Matrix { data, .. } => Ok(Value::Scalar(Dec { m: data.len() as i128, e: 0 })),
        }
    } else if eq_chars(&ln, &k_prod) {
        match arg {
            Value::Scalar(s) => Ok(Value::Scalar(s)),
            Value::Matrix { data, .. } => match fold_mul_exec(&data) {
                Some(s) => Ok(Value::Scalar(s)),
                None => Err(
                    FormulaError::RuntimeError(
                        String::from_str("decimal overflow in aggregate function"),
                    ),
                ),
            },
        }
    } else {
        let mut msg = str_chars("unknown function: '");
        append_chars(&mut msg, &raw);
        let tail = str_chars("'");
        append_chars(&mut msg, &tail);
        proof {
            assert(msg@ =~= "unknown function: '"@ + name@ + "'"@);
        }
        Err(FormulaError::RuntimeError(chars_string(&msg)))
    }
}

} // verus!

verus! {

/// The variable environment: later bindings shadow earlier ones.
pub open spec fn vars_map(s: Seq<(String, Value)>) -> Map<Seq<char>, SpecVal>
    decreases s.len(),
{
    if s.len() == 0 {
        Map::empty()
    } else {
        vars_map(s.drop_last()).insert(s.last().0@, s.last().1@)
    }
}

/// Every bound value is well formed.
pub open spec fn vars_wf(s: Seq<(String, Value)>) -> bool {
    forall|j: int| 0 <= j < s.len() ==> sv_wf((#[trigger] s[j]).1@)
}

/// The map of other tables by identifier; later entries shadow earlier
/// ones.
pub open spec fn tables_map(s: Seq<(String, Vec<Vec<String>>)>) -> Map<
    Seq<char>,
    Seq<Seq<Seq<char>>>,
>
    decreases s.len(),
{
    if s.len() == 0 {
        Map::empty()
    } else {
        tables_map(s.drop_last()).insert(
            s.last().0@,
            crate::table::formula::reference::grid_view(s.last().1@),
        )
    }
}

proof fn lemma_vars_map_prefix(s: Seq<(String, Value)>, k: Seq<char>, i: int)
    requires
        0 <= i <= s.len(),
        forall|j: int| i <= j < s.len() ==> (#[trigger] s[j]).0@ != k,
    ensures
        vars_map(s).contains_key(k) == vars_map(s.take(i)).contains_key(k),
        vars_map(s).contains_key(k) ==> vars_map(s)[k] == vars_map(s.take(i))[k],
    decreases s.len() - i,
{
    if i == s.len() {
        assert(s.take(i) =~= s);
    } else {
        lemma_vars_map_prefix(s, k, i + 1);
        let t = s.take(i + 1);
        assert(t.drop_last() =~= s.take(i));
        assert(t.last() == s[i]);
        assert(vars_map(s.take(i + 1)) == vars_map(s.take(i)).insert(s[i].0@, s[i].1@));
    }
}

proof fn lemma_tables_map_prefix(s: Seq<(String, Vec<Vec<String>>)>, k: Seq<char>, i: int)
    requires
        0 <= i <= s.len(),
        forall|j: int| i <= j < s.len() ==> (#[trigger] s[j]).0@ != k,
    ensures
        tables_map(s).contains_key(k) == tables_map(s.take(i)).contains_key(k),
        tables_map(s).contains_key(k) ==> tables_map(s)[k] == tables_map(s.take(i))[k],
    decreases s.len() - i,
{
    if i == s.len() {
        assert(s.take(i) =~= s);
    } else {
        lemma_tables_map_prefix(s, k, i + 1);
        let t = s.take(i + 1);
        assert(t.drop_last() =~= s.take(i));
        assert(t.last() == s[i]);
        assert(tables_map(s.take(i + 1)) == tables_map(s.take(i)).insert(
            s[i].0@,
            crate::table::formula::reference::grid_view(s[i].1@),
        ));
    }
}

/// Looks a variable up; the latest binding wins.
fn lookup_var<'a>(vars: &'a Vec<(String, Value)>, name: &String) -> (r: Option<&'a Value>)
    ensures
        r is Some <==> vars_map(vars@).contains_key(name@),
        r is Some ==> r->0@ == vars_map(vars@)[name@],
{
    let mut i: usize = vars.len();
    while i > 0
        invariant
            0 <= i <= vars@.len(),
            forall|j: int| i <= j < vars@.len() ==> (#[trigger] vars@[j]).0@ != name@,
        decreases i,
    {
        if vars[i - 1].0 == *name {
            proof {
                lemma_vars_map_prefix(vars@, name@, i as int);
                let t = vars@.take(i as int);
                assert(t.drop_last() =~= vars@.take(i - 1));
                assert(t.last() == vars@[i - 1]);
                assert(vars_map(t) == vars_map(vars@.take(i - 1)).insert(
                    vars@[i - 1].0@,
                    vars@[i - 1].1@,
                ));
            }
            return Some(&vars[i - 1].1);
        }
        i = i - 1;
    }
    proof {
        lemma_vars_map_prefix(vars@, name@, 0);
        assert(vars@.take(0) =~= Seq::<(String, Value)>::empty());
    }
    None
}

/// Looks another table up by its identifier; the latest entry wins.
fn lookup_table<'a>(tables: &'a Vec<(String, Vec<Vec<String>>)>, name: &String) -> (r: Option<
    &'a Vec<Vec<String>>,
>)
    ensures
        r is Some <==> tables_map(tables@).contains_key(name@),
        r is Some ==> crate::table::formula::reference::grid_view(r->0@) == tables_map(tables@)[name@],
{
    let mut i: usize = tables.len();
    while i > 0
        invariant
            0 <= i <= tables@.len(),
            forall|j: int| i <= j < tables@.len() ==> (#[trigger] tables@[j]).0@ != name@,
        decreases i,
    {
        if tables[i - 1].0 == *name {
            proof {
                lemma_tables_map_prefix(tables@, name@, i as int);
                let t = tables@.take(i as int);
                assert(t.drop_last() =~= tables@.take(i - 1));
                assert(t.last() == tables@[i - 1]);
                assert(tables_map(t) == tables_map(tables@.take(i - 1)).insert(
                    tables@[i - 1].0@,
                    crate::table::formula::reference::grid_view(tables@[i - 1].1@),
                ));
            }
            return Some(&tables[i - 1].1);
        }
        i = i - 1;
    }
    proof {
        lemma_tables_map_prefix(tables@, name@, 0);
        assert(tables@.take(0) =~= Seq::<(String, Vec<Vec<String>>)>::empty());
    }
    None
}

/// A structural copy of a value.
pub fn dup_value(v: &Value) -> (r: Value)
    ensures
        r@ == v@,
{
    match v {
        Value::Scalar(d) => Value::Scalar(*d),
        Value::Matrix { rows, cols, data } => {
            let mut out: Vec<Dec> = Vec::new();
            let mut i: usize = 0;
            while i < data.len()
                invariant
                    0 <= i <= data@.len(),
                    out@ == data@.take(i as int),
                decreases data@.len() - i,
            {
                out.push(data[i]);
                proof {
                    assert(out@ =~= data@.take(i + 1));
                }
                i = i + 1;
            }
            proof {
                assert(out@ =~= data@);
            }
            Value::Matrix { rows: *rows, cols: *cols, data: out }
        },
    }
}

} // verus!

verus! {

pub open spec fn op_char_of(op: crate::table::formula::ast::BinaryOperator) -> char {
    match op {
        crate::table::formula::ast::BinaryOperator::Add => '+',
        crate::table::formula::ast::BinaryOperator::Sub => '-',
        crate::table::formula::ast::BinaryOperator::Mul => '*',
        crate::table::formula::ast::BinaryOperator::Div => '/',
        crate::table::formula::ast::BinaryOperator::Pow => '^',
        crate::table::formula::ast::BinaryOperator::MatMul => '@',
    }
}

/// What an expression evaluates to, given the grid, the map of other
/// tables, and the bound variables.
pub open spec fn spec_eval(
    e: crate::table::formula::ast::SpecExpr,
    g: Seq<Seq<Seq<char>>>,
    tables: Map<Seq<char>, Seq<Seq<Seq<char>>>>,
    vars: Map<Seq<char>, SpecVal>,
) -> Result<SpecVal, SpecErr>
    decreases e,
{
    match e {
        crate::table::formula::ast::SpecExpr::Literal(d, _) => Ok(SpecVal::Scalar(d)),
        crate::table::formula::ast::SpecExpr::Str(_, _) => Err(
            SpecErr::RuntimeError(
                "string literals can only be used as arguments to functions like from()"@,
            ),
        ),
        crate::table::formula::ast::SpecExpr::Variable(n, _) => if vars.contains_key(n) {
            Ok(vars[n])
        } else {
            Err(SpecErr::RuntimeError("undefined variable: '"@ + n + "'"@))
        },
        crate::table::formula::ast::SpecExpr::CellRef(cr, _) => {
            crate::table::formula::reference::spec_resolve(cr, g)
        },
        crate::table::formula::ast::SpecExpr::BinaryOp { left, op, right, .. } => {
            match spec_eval(*left, g, tables, vars) {
                Err(se) => Err(se),
                Ok(l) => match spec_eval(*right, g, tables, vars) {
                    Err(se) => Err(se),
                    Ok(r) => spec_binary_op(op_char_of(op), l, r),
                },
            }
        },
        crate::table::formula::ast::SpecExpr::Transpose(inner, _) => {
            match spec_eval(*inner, g, tables, vars) {
                Err(se) => Err(se),
                Ok(SpecVal::Scalar(_)) => Err(
                    SpecErr::RuntimeError(
                        "cannot transpose a scalar value - only matrices can be transposed"@,
                    ),
                ),
                Ok(SpecVal::Matrix { rows, cols, data }) => Ok(
                    SpecVal::Matrix {
                        rows: cols,
                        cols: rows,
                        data: spec_transpose(rows, cols, data),
                    },
                ),
            }
        },
        crate::table::formula::ast::SpecExpr::FunctionCall { name, args, .. } => {
            spec_eval_call(name, args, g, tables, vars)
        },
    }
}


/// A function call: `from` looks a table or variable up; the aggregates
/// take exactly one evaluated argument.
pub open spec fn spec_eval_call(
    name: Seq<char>,
    args: Seq<crate::table::formula::ast::SpecExpr>,
    g: Seq<Seq<Seq<char>>>,
    tables: Map<Seq<char>, Seq<Seq<Seq<char>>>>,
    vars: Map<Seq<char>, SpecVal>,
) -> Result<SpecVal, SpecErr>
    decreases args,
{
    let ln = kw(name);
    if ln == seq!['f', 'r', 'o', 'm'] {
        if args.len() == 0 || args.len() > 2 {
            Err(
                SpecErr::RuntimeError(
                    "function 'from' expects 1 or 2 arguments, got "@ + spec_nat_str(args.len()),
                ),
            )
        } else {
            spec_eval_from(args, tables, vars)
        }
    } else if ln == seq!['s', 'u', 'm'] || ln == seq!['a', 'v', 'g'] || ln == seq![
        'm',
        'i',
        'n',
    ] || ln == seq!['m', 'a', 'x'] || ln == seq!['c', 'o', 'u', 'n', 't'] || ln == seq![
        'p',
        'r',
        'o',
        'd',
    ] {
        if args.len() != 1 {
            Err(
                SpecErr::RuntimeError(
                    "function '"@ + name + "' expects exactly 1 argument, got "@ + spec_nat_str(
                        args.len(),
                    ),
                ),
            )
        } else {
            match spec_eval(args[0], g, tables, vars) {
                Err(se) => Err(se),
                Ok(v) => spec_eval_function(name, v),
            }
        }
    } else {
        Err(
            SpecErr::RuntimeError(
                "unknown function: '"@ + name
                    + "' (supported functions: sum, avg, min, max, count, prod, from)"@,
            ),
        )
    }
}

/// The `from` lookup itself, once the argument count is known to be 1 or 2.
pub open spec fn spec_eval_from(
    args: Seq<crate::table::formula::ast::SpecExpr>,
    tables: Map<Seq<char>, Seq<Seq<Seq<char>>>>,
    vars: Map<Seq<char>, SpecVal>,
) -> Result<SpecVal, SpecErr> {
    {
        {
            match args[0] {
                crate::table::formula::ast::SpecExpr::Str(table_id, _) => {
                    if !tables.contains_key(table_id) {
                        Err(
                            SpecErr::RuntimeError(
                                "table '"@ + table_id
                                    + "' not found (tables must have an id attribute)"@,
                            ),
                        )
                    } else if args.len() == 1 {
                        crate::table::formula::reference::spec_table_to_matrix(tables[table_id])
                    } else {
                        match args[1] {
                            crate::table::formula::ast::SpecExpr::CellRef(cr, _) => {
                                crate::table::formula::reference::spec_resolve(
                                    cr,
                                    tables[table_id],
                                )
                            },
                            _ => Err(
                                SpecErr::RuntimeError(
                                    "from() second argument must be a cell reference or range"@,
                                ),
                            ),
                        }
                    }
                },
                crate::table::formula::ast::SpecExpr::Variable(vn, _) => {
                    if !vars.contains_key(vn) {
                        Err(SpecErr::RuntimeError("undefined variable: '"@ + vn + "'"@))
                    } else if vars[vn] is Scalar {
                        Err(
                            SpecErr::RuntimeError(
                                "cannot use from() with scalar variable '"@ + vn
                                    + "' - expected matrix"@,
                            ),
                        )
                    } else if args.len() == 1 {
                        Ok(vars[vn])
                    } else {
                        Err(
                            SpecErr::RuntimeError(
                                "from(variable, range) is not yet supported - use from(variable) to get the entire matrix"@,
                            ),
                        )
                    }
                },
                _ => Err(
                    SpecErr::RuntimeError(
                        "from() first argument must be a string literal (table ID) or variable reference"@,
                    ),
                ),
            }
        }
    }
}

} // verus!

verus! {

use crate::table::formula::ast::{Expr, SpecExpr, BinaryOperator, expr_view, exprs_view_of,
    spec_expr_wf, lemma_evs_index};
use crate::table::formula::reference::{resolve_reference, table_to_matrix, grid_view};

/// Evaluates a binary AST node's operator.
pub fn eval_binary_op(op: BinaryOperator, left: Value, right: Value) -> (r: Result<
    Value,
    FormulaError,
>)
    requires
        sv_wf(left@),
        sv_wf(right@),
    ensures
        (match spec_binary_op(op_char_of(op), left@, right@) {
            Ok(sv) => r matches Ok(v) && v@ == sv && sv_wf(sv),
            Err(se) => r matches Err(e) && e@ == se,
        }),
{
    match op {
        BinaryOperator::Add => evaluate_operation('+', left, right),
        BinaryOperator::Sub => evaluate_operation('-', left, right),
        BinaryOperator::Mul => evaluate_operation('*', left, right),
        BinaryOperator::Div => evaluate_operation('/', left, right),
        BinaryOperator::Pow => evaluate_operation('^', left, right),
        BinaryOperator::MatMul => evaluate_operation('@', left, right),
    }
}

/// Evaluates an expression against the grid, the other tables, and the
/// bound variables.
#[verifier::rlimit(100)]
#[verifier::spinoff_prover]
pub fn eval_ast_with_tables(
    expr: &Expr,
    rows: &Vec<Vec<String>>,
    table_map: &Vec<(String, Vec<Vec<String>>)>,
    variable_map: &Vec<(String, Value)>,
) -> (r: Result<Value, FormulaError>)
    requires
        spec_expr_wf(expr_view(*expr)),
        vars_wf(variable_map@),
    ensures
        (match spec_eval(
            expr_view(*expr),
            grid_view(rows@),
            tables_map(table_map@),
            vars_map(variable_map@),
        ) {
            Ok(sv) => r matches Ok(v) && v@ == sv && sv_wf(sv),
            Err(se) => r matches Err(e) && e@ == se,
        }),
    decreases *expr,
{
    let ghost g = grid_view(rows@);
    let ghost tm = tables_map(table_map@);
    let ghost vm = vars_map(variable_map@);
    match expr {
        Expr::Literal(d, _) => Ok(Value::Scalar(*d)),
        Expr::Str(_, _) => Err(
            FormulaError::RuntimeError(
                String::from_str(
                    "string literals can only be used as arguments to functions like from()",
                ),
            ),
        ),
        Expr::Variable(n, _) => eval_variable(n, variable_map),
        Expr::CellRef(cr, _) => resolve_reference(cr, rows),
        Expr::BinaryOp { left, op, right, .. } => {
            let lv = match eval_ast_with_tables(left, rows, table_map, variable_map) {
                Ok(v) => v,
                Err(e) => {
                    return Err(e);
                },
            };
            let rv = match eval_ast_with_tables(right, rows, table_map, variable_map) {
                Ok(v) => v,
                Err(e) => {
                    return Err(e);
                },
            };
            eval_binary_op(*op, lv, rv)
        },
        Expr::Transpose(inner, _) => {
            let v = match eval_ast_with_tables(inner, rows, table_map, variable_map) {
                Ok(v) => v,
                Err(e) => {
                    return Err(e);
                },
            };
            match v {
                Value::Scalar(_) => Err(
                    FormulaError::RuntimeError(
                        String::from_str(
                            "cannot transpose a scalar value - only matrices can be transposed",
                        ),
                    ),
                ),
                Value::Matrix { rows: mr, cols: mc, data } => {
                    match (Value::Matrix { rows: mr, cols: mc, data }).transpose() {
                        Some(t) => Ok(t),
                        None => Err(
                            FormulaError::RuntimeError(
                                String::from_str("transpose operation failed"),
                            ),
                        ),
                    }
                },
            }
        },
        Expr::FunctionCall { name, args, .. } => {
            eval_function_call_with_tables(name, args, rows, table_map, variable_map)
        },
    }
}

/// Reads one bound variable, or reports it undefined.
fn eval_variable(n: &String, variable_map: &Vec<(String, Value)>) -> (r: Result<
    Value,
    FormulaError,
>)
    requires
        vars_wf(variable_map@),
    ensures
        vars_map(variable_map@).contains_key(n@) ==> (r matches Ok(v) && v@ == vars_map(
            variable_map@,
        )[n@] && sv_wf(v@)),
        !vars_map(variable_map@).contains_key(n@) ==> (r matches Err(e) && e@
            == SpecErr::RuntimeError("undefined variable: '"@ + n@ + "'"@)),
{
    match lookup_var(variable_map, n) {
        Some(v) => {
            proof {
                lemma_vars_value_wf(variable_map@, n@);
            }
            Ok(dup_value(v))
        },
        None => {
            let mut msg = str_chars("undefined variable: '");
            let nv = str_chars(n.as_str());
            append_chars(&mut msg, &nv);
            let tail = str_chars("'");
            append_chars(&mut msg, &tail);
            proof {
                assert(msg@ =~= "undefined variable: '"@ + n@ + "'"@);
            }
            Err(FormulaError::RuntimeError(chars_string(&msg)))
        },
    }
}

proof fn lemma_vars_value_wf(s: Seq<(String, Value)>, k: Seq<char>)
    requires
        vars_wf(s),
        vars_map(s).contains_key(k),
    ensures
        sv_wf(vars_map(s)[k]),
    decreases s.len(),
{
    if s.len() > 0 {
        if s.last().0@ == k && vars_map(s)[k] == s.last().1@ {
        } else {
            assert(forall|j: int|
                0 <= j < s.drop_last().len() ==> sv_wf((#[trigger] s.drop_last()[j]).1@));
            if s.last().0@ != k {
                lemma_vars_value_wf(s.drop_last(), k);
            }
        }
    }
}

/// Dispatches a function call: `from` reads another table or a variable;
/// everything else takes one evaluated argument.
#[verifier::rlimit(100)]
#[verifier::spinoff_prover]
fn eval_function_call_with_tables(
    name: &String,
    args: &Vec<Expr>,
    rows: &Vec<Vec<String>>,
    table_map: &Vec<(String, Vec<Vec<String>>)>,
    variable_map: &Vec<(String, Value)>,
) -> (r: Result<Value, FormulaError>)
    requires
        crate::table::formula::ast::spec_exprs_wf(exprs_view_of(*args, 0)),
        vars_wf(variable_map@),
    ensures
        (match spec_eval_call(
            name@,
            exprs_view_of(*args, 0),
            grid_view(rows@),
            tables_map(table_map@),
            vars_map(variable_map@),
        ) {
            Ok(sv) => r matches Ok(v) && v@ == sv && sv_wf(sv),
            Err(se) => r matches Err(e) && e@ == se,
        }),
    decreases *args,
{
    proof {
        lemma_evs_index(*args, 0);
    }
    let ghost av = exprs_view_of(*args, 0);
    let raw = str_chars(name.as_str());
    let ln = to_lower_chars(&raw);
    let k_from = vec!['f', 'r', 'o', 'm'];
    let k_sum = vec!['s', 'u', 'm'];
    let k_avg = vec!['a', 'v', 'g'];
    let k_min = vec!['m', 'i', 'n'];
    let k_max = vec!['m', 'a', 'x'];
    let k_count = vec!['c', 'o', 'u', 'n', 't'];
    let k_prod = vec!['p', 'r', 'o', 'd'];
    proof {
        assert(k_from@ =~= seq!['f', 'r', 'o', 'm']);
        assert(k_sum@ =~= seq!['s', 'u', 'm']);
        assert(k_avg@ =~= seq!['a', 'v', 'g']);
        assert(k_min@ =~= seq!['m', 'i', 'n']);
        assert(k_max@ =~= seq!['m', 'a', 'x']);
        assert(k_count@ =~= seq!['c', 'o', 'u', 'n', 't']);
        assert(k_prod@ =~= seq!['p', 'r', 'o', 'd']);
    }
    if eq_chars(&ln, &k_from) {
        if args.len() == 0 || args.len() > 2 {
            let mut msg = str_chars("function 'from' expects 1 or 2 arguments, got ");
            let cnt = usize_to_chars(args.len());
            append_chars(&mut msg, &cnt);
            proof {
                assert(msg@ =~= "function 'from' expects 1 or 2 arguments, got "@ + spec_nat_str(
                    av.len(),
                ));
            }
            return Err(FormulaError::RuntimeError(chars_string(&msg)));
        }
        eval_from_exec(args, table_map, variable_map)
    } else if eq_chars(&ln, &k_sum) || eq_chars(&ln, &k_avg) || eq_chars(&ln, &k_min) || eq_chars(
        &ln,
        &k_max,
    ) || eq_chars(&ln, &k_count) || eq_chars(&ln, &k_prod) {
        if args.len() != 1 {
            let mut msg = str_chars("function '");
            append_chars(&mut msg, &raw);
            let mid = str_chars("' expects exactly 1 argument, got ");
            append_chars(&mut msg, &mid);
            let cnt = usize_to_chars(args.len());
            append_chars(&mut msg, &cnt);
            proof {
                assert(msg@ =~= "function '"@ + name@ + "' expects exactly 1 argument, got "@
                    + spec_nat_str(av.len()));
            }
            return Err(FormulaError::RuntimeError(chars_string(&msg)));
        }
        proof {
            assert(spec_expr_wf(av[0]));
        }
        match eval_ast_with_tables(&args[0], rows, table_map, variable_map) {
            Err(e) => Err(e),
            Ok(v) => eval_function(name.as_str(), v),
        }
    } else {
        let mut msg = str_chars("unknown function: '");
        append_chars(&mut msg, &raw);
        let tail = str_chars("' (supported functions: sum, avg, min, max, count, prod, from)");
        append_chars(&mut msg, &tail);
        proof {
            assert(msg@ =~= "unknown function: '"@ + name@
                + "' (supported functions: sum, avg, min, max, count, prod, from)"@);
        }
        Err(FormulaError::RuntimeError(chars_string(&msg)))
    }
}

/// The `from` lookup: a table by quoted identifier, or a bound matrix
/// variable.
#[verifier::rlimit(100)]
#[verifier::spinoff_prover]
fn eval_from_exec(
    args: &Vec<Expr>,
    table_map: &Vec<(String, Vec<Vec<String>>)>,
    variable_map: &Vec<(String, Value)>,
) -> (r: Result<Value, FormulaError>)
    requires
        crate::table::formula::ast::spec_exprs_wf(exprs_view_of(*args, 0)),
        vars_wf(variable_map@),
        1 <= args@.len() <= 2,
    ensures
        (match spec_eval_from(
            exprs_view_of(*args, 0),
            tables_map(table_map@),
            vars_map(variable_map@),
        ) {
            Ok(sv) => r matches Ok(v) && v@ == sv && sv_wf(sv),
            Err(se) => r matches Err(e) && e@ == se,
        }),
{
    proof {
        lemma_evs_index(*args, 0);
    }
    let ghost av = exprs_view_of(*args, 0);
    match &args[0] {
            Expr::Str(table_id, _) => {
                match lookup_table(table_map, table_id) {
                    None => {
                        let mut msg = str_chars("table '");
                        let idv = str_chars(table_id.as_str());
                        append_chars(&mut msg, &idv);
                        let tail = str_chars("' not found (tables must have an id attribute)");
                        append_chars(&mut msg, &tail);
                        proof {
                            assert(msg@ =~= "table '"@ + table_id@
                                + "' not found (tables must have an id attribute)"@);
                        }
                        Err(FormulaError::RuntimeError(chars_string(&msg)))
                    },
                    Some(target_rows) => {
                        if args.len() == 1 {
                            table_to_matrix(target_rows)
                        } else {
                            match &args[1] {
                                Expr::CellRef(cr, _) => {
                                    proof {
                                        assert(spec_expr_wf(av[1]));
                                    }
                                    resolve_reference(cr, target_rows)
                                },
                                _ => Err(
                                    FormulaError::RuntimeError(
                                        String::from_str(
                                            "from() second argument must be a cell reference or range",
                                        ),
                                    ),
                                ),
                            }
                        }
                    },
                }
            },
            Expr::Variable(vn, _) => {
                match lookup_var(variable_map, vn) {
                    None => {
                        let mut msg = str_chars("undefined variable: '");
                        let nv = str_chars(vn.as_str());
                        append_chars(&mut msg, &nv);
                        let tail = str_chars("'");
                        append_chars(&mut msg, &tail);
                        proof {
                            assert(msg@ =~= "undefined variable: '"@ + vn@ + "'"@);
                        }
                        Err(FormulaError::RuntimeError(chars_string(&msg)))
                    },
                    Some(v) => {
                        let is_scalar = match v {
                            Value::Scalar(_) => true,
                            _ => false,
                        };
                        if is_scalar {
                            let mut msg = str_chars("cannot use from() with scalar variable '");
                            let nv = str_chars(vn.as_str());
                            append_chars(&mut msg, &nv);
                            let tail = str_chars("' - expected matrix");
                            append_chars(&mut msg, &tail);
                            proof {
                                assert(msg@ =~= "cannot use from() with scalar variable '"@ + vn@
                                    + "' - expected matrix"@);
                            }
                            Err(FormulaError::RuntimeError(chars_string(&msg)))
                        } else if args.len() == 1 {
                            proof {
                                lemma_vars_value_wf(variable_map@, vn@);
                            }
                            Ok(dup_value(v))
                        } else {
                            Err(
                                FormulaError::RuntimeError(
                                    String::from_str(
                                        "from(variable, range) is not yet supported - use from(variable) to get the entire matrix",
                                    ),
                                ),
                            )
                        }
                    },
                }
            },
            _ => Err(
                FormulaError::RuntimeError(
                    String::from_str(
                        "from() first argument must be a string literal (table ID) or variable reference",
                    ),
                ),
            ),
    }
}

} // verus!

verus! {

/// The matrix-multiply dimension law: `@` succeeds only on an `m x n` and
/// an `n x p` matrix, and the product then is `m x p`; any other pairing
/// of operands fails, never yielding a partial result.
pub proof fn lemma_matmul_dimension_law(l: SpecVal, r: SpecVal)
    ensures
        (spec_binary_op('@', l, r) matches Ok(v) ==> (l is Matrix && r is Matrix
            && l->Matrix_cols == r->Matrix_rows && v is Matrix && v->Matrix_rows
            == l->Matrix_rows && v->Matrix_cols == r->Matrix_cols)),
        !(l is Matrix && r is Matrix && l->Matrix_cols == r->Matrix_rows) ==> spec_binary_op(
            '@',
            l,
            r,
        ) is Err,
{
}

} // verus!
