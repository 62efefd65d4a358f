//! Exact decimal numbers.
//!
//! A [`Dec`] is a pair of a mantissa and a scale: it stands for the number
//! `m / 10^e`.  The arithmetic itself is done by the `rust_decimal` crate
//! through the trusted wrappers below; everything this library proves about
//! a computed number is stated over the names given to those operations
//! (`add_of`, `mul_of`, ...) and over the exact value predicates
//! (`spec_dec_eq`, `spec_dec_lt`).

use vstd::prelude::*;
use core::str::FromStr;
use rust_decimal::prelude::FromPrimitive;
use rust_decimal::prelude::ToPrimitive;

verus! {

/// A decimal number with value `m / 10^e`.
///
/// The representation mirrors `rust_decimal::Decimal`: the mantissa is a
/// signed 96-bit integer and the scale is at most 28.  `dec_valid` states
/// those bounds; the trusted wrappers require them of their arguments and
/// guarantee them of their results.
#[derive(Debug, Clone, Copy, PartialEq, Eq)]
pub struct Dec {
    pub m: i128,
    pub e: u32,
}

/// `10^e`, as a mathematical integer.
pub open spec fn pow10(e: nat) -> int
    decreases e,
{
    if e == 0 {
        1
    } else {
        10 * pow10((e - 1) as nat)
    }
}

/// The largest mantissa `rust_decimal` can hold: `2^96 - 1`.
pub open spec fn max_mantissa() -> int {
    0x0000_0000_ffff_ffff_ffff_ffff_ffff_ffffint
}

/// A `Dec` that `rust_decimal` can represent.
pub open spec fn dec_valid(d: Dec) -> bool {
    d.e <= 28 && -max_mantissa() <= d.m <= max_mantissa()
}

/// The two numbers have the same value: `a.m / 10^a.e == b.m / 10^b.e`.
pub open spec fn spec_dec_eq(a: Dec, b: Dec) -> bool {
    a.m * pow10(b.e as nat) == b.m * pow10(a.e as nat)
}

/// `a` is strictly below `b` as a number.
pub open spec fn spec_dec_lt(a: Dec, b: Dec) -> bool {
    a.m * pow10(b.e as nat) < b.m * pow10(a.e as nat)
}

/// The value of `d` is an integer, i.e. the mantissa carries only trailing
/// zeros under the scale.
pub open spec fn spec_dec_is_int(d: Dec) -> bool {
    (d.m as int) % pow10(d.e as nat) == 0
}

/// What `rust_decimal` addition returns: `None` on overflow.
pub uninterp spec fn add_of(a: Dec, b: Dec) -> Option<Dec>;

/// What `rust_decimal` subtraction returns: `None` on overflow.
pub uninterp spec fn sub_of(a: Dec, b: Dec) -> Option<Dec>;

/// What `rust_decimal` multiplication returns: `None` on overflow.
pub uninterp spec fn mul_of(a: Dec, b: Dec) -> Option<Dec>;

/// What `rust_decimal` division returns: `None` on a zero divisor or overflow.
pub uninterp spec fn div_of(a: Dec, b: Dec) -> Option<Dec>;

/// What the floating-point fallback for fractional exponents returns.
pub uninterp spec fn powf_of(a: Dec, b: Dec) -> Option<Dec>;

/// What `rust_decimal`'s string parser returns for a piece of text.
pub uninterp spec fn parse_of(s: Seq<char>) -> Option<Dec>;

/// The canonical rendering of a decimal, as printed by `rust_decimal`.
pub uninterp spec fn string_of(d: Dec) -> Seq<char>;

impl Dec {
    /// The number zero.
    pub fn zero() -> (r: Dec)
        ensures
            r == (Dec { m: 0, e: 0 }),
            dec_valid(r),
    {
        Dec { m: 0, e: 0 }
    }

    /// The number one.
    pub fn one() -> (r: Dec)
        ensures
            r == (Dec { m: 1, e: 0 }),
            dec_valid(r),
    {
        Dec { m: 1, e: 0 }
    }

    /// The integer `v` as a decimal with scale 0.
    pub fn from_i64(v: i64) -> (r: Dec)
        ensures
            r == (Dec { m: v as i128, e: 0 }),
            dec_valid(r),
    {
        Dec { m: v as i128, e: 0 }
    }

    /// A decimal from a mantissa and a scale, when the pair is representable.
    pub fn new_checked(m: i128, e: u32) -> (r: Option<Dec>)
        ensures
            r is Some <==> dec_valid(Dec { m: m, e: e }),
            r is Some ==> r->0 == (Dec { m: m, e: e }),
    {
        if e <= 28 && -0x0000_0000_ffff_ffff_ffff_ffff_ffff_ffffi128 <= m
            && m <= 0x0000_0000_ffff_ffff_ffff_ffff_ffff_ffffi128 {
            Some(Dec { m: m, e: e })
        } else {
            None
        }
    }

    /// The value is zero exactly when the mantissa is zero.
    pub fn is_zero(&self) -> (r: bool)
        ensures
            r == (self.m == 0),
    {
        self.m == 0
    }
}

/// Relies on `rust_decimal::Decimal::checked_add`: the sum of the two
/// numbers, or `None` when it cannot be represented.  The algorithm is
/// symmetric in the values of its operands, which gives the commutativity
/// clauses below.
#[verifier::external_body]
pub fn dec_add(a: &Dec, b: &Dec) -> (r: Option<Dec>)
    requires
        dec_valid(*a),
        dec_valid(*b),
    ensures
        r == add_of(*a, *b),
        r is Some ==> dec_valid(r->0),
        r is Some <==> add_of(*b, *a) is Some,
        r is Some ==> spec_dec_eq(r->0, add_of(*b, *a)->0),
{
    let x = rust_decimal::Decimal::from_i128_with_scale(a.m, a.e);
    let y = rust_decimal::Decimal::from_i128_with_scale(b.m, b.e);
    match x.checked_add(y) {
        Some(d) => Some(Dec { m: d.mantissa(), e: d.scale() }),
        None => None,
    }
}

/// Relies on `rust_decimal::Decimal::checked_sub`: the difference, or `None`
/// when it cannot be represented.
#[verifier::external_body]
pub fn dec_sub(a: &Dec, b: &Dec) -> (r: Option<Dec>)
    requires
        dec_valid(*a),
        dec_valid(*b),
    ensures
        r == sub_of(*a, *b),
        r is Some ==> dec_valid(r->0),
{
    let x = rust_decimal::Decimal::from_i128_with_scale(a.m, a.e);
    let y = rust_decimal::Decimal::from_i128_with_scale(b.m, b.e);
    match x.checked_sub(y) {
        Some(d) => Some(Dec { m: d.mantissa(), e: d.scale() }),
        None => None,
    }
}

/// Relies on `rust_decimal::Decimal::checked_mul`: the product, or `None`
/// when it cannot be represented.
#[verifier::external_body]
pub fn dec_mul(a: &Dec, b: &Dec) -> (r: Option<Dec>)
    requires
        dec_valid(*a),
        dec_valid(*b),
    ensures
        r == mul_of(*a, *b),
        r is Some ==> dec_valid(r->0),
{
    let x = rust_decimal::Decimal::from_i128_with_scale(a.m, a.e);
    let y = rust_decimal::Decimal::from_i128_with_scale(b.m, b.e);
    match x.checked_mul(y) {
        Some(d) => Some(Dec { m: d.mantissa(), e: d.scale() }),
        None => None,
    }
}

/// Relies on `rust_decimal::Decimal::checked_div`: the quotient, `None` when
/// the divisor is zero or the quotient cannot be represented.
#[verifier::external_body]
pub fn dec_div(a: &Dec, b: &Dec) -> (r: Option<Dec>)
    requires
        dec_valid(*a),
        dec_valid(*b),
    ensures
        r == div_of(*a, *b),
        b.m == 0 ==> r is None,
        r is Some ==> dec_valid(r->0),
{
    let x = rust_decimal::Decimal::from_i128_with_scale(a.m, a.e);
    let y = rust_decimal::Decimal::from_i128_with_scale(b.m, b.e);
    match x.checked_div(y) {
        Some(d) => Some(Dec { m: d.mantissa(), e: d.scale() }),
        None => None,
    }
}

/// Relies on `rust_decimal`'s `PartialEq`, which compares the numeric values
/// of the two decimals regardless of scale.
#[verifier::external_body]
pub fn dec_eq(a: &Dec, b: &Dec) -> (r: bool)
    requires
        dec_valid(*a),
        dec_valid(*b),
    ensures
        r == spec_dec_eq(*a, *b),
{
    let x = rust_decimal::Decimal::from_i128_with_scale(a.m, a.e);
    let y = rust_decimal::Decimal::from_i128_with_scale(b.m, b.e);
    x == y
}

/// Relies on `rust_decimal`'s `Ord`, which orders decimals by numeric value.
#[verifier::external_body]
pub fn dec_lt(a: &Dec, b: &Dec) -> (r: bool)
    requires
        dec_valid(*a),
        dec_valid(*b),
    ensures
        r == spec_dec_lt(*a, *b),
{
    let x = rust_decimal::Decimal::from_i128_with_scale(a.m, a.e);
    let y = rust_decimal::Decimal::from_i128_with_scale(b.m, b.e);
    x < y
}

/// Relies on `rust_decimal`'s `Display`: the canonical text of the number.
/// Parsing that text gives back exactly the same mantissa and scale, which
/// the second clause records.
#[verifier::external_body]
pub fn dec_to_string(d: &Dec) -> (r: String)
    requires
        dec_valid(*d),
    ensures
        r@ == string_of(*d),
        parse_of(r@) == Some(*d),
{
    rust_decimal::Decimal::from_i128_with_scale(d.m, d.e).to_string()
}

/// Relies on `rust_decimal`'s `FromStr`: the decimal a piece of text denotes,
/// or `None` when the text is not a number that fits.
#[verifier::external_body]
pub fn dec_from_str(s: &str) -> (r: Option<Dec>)
    ensures
        r == parse_of(s@),
        r is Some ==> dec_valid(r->0),
{
    match rust_decimal::Decimal::from_str(s) {
        Ok(d) => Some(Dec { m: d.mantissa(), e: d.scale() }),
        Err(_) => None,
    }
}

/// Relies on `Decimal::to_f64`, `f64::powf` and `Decimal::from_f64`: the
/// lossy floating-point fallback used for fractional exponents.  The name
/// stands for whatever this chain computes on the running platform; no
/// caller's contract states a concrete value for it.
#[verifier::external_body]
pub fn dec_powf(a: &Dec, b: &Dec) -> (r: Option<Dec>)
    requires
        dec_valid(*a),
        dec_valid(*b),
    ensures
        r == powf_of(*a, *b),
        r is Some ==> dec_valid(r->0),
{
    let x = rust_decimal::Decimal::from_i128_with_scale(a.m, a.e);
    let y = rust_decimal::Decimal::from_i128_with_scale(b.m, b.e);
    match (x.to_f64(), y.to_f64()) {
        (Some(xf), Some(yf)) => match rust_decimal::Decimal::from_f64(xf.powf(yf)) {
            Some(d) => Some(Dec { m: d.mantissa(), e: d.scale() }),
            None => None,
        },
        _ => None,
    }
}

} // verus!
