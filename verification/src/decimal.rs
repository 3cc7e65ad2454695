//! Fixed point arithmetic on `i64` mantissas with `D` fractional decimal digits.
//!
//! The arithmetic itself is done by the `const_decimal` crate; this module states
//! what each operation computes on the mantissas.

use vstd::prelude::*;

use crate::text::{int_text, nat_text};

verus! {

/// Ten to the power of `d`: the scaling factor of a number with `d` fractional digits.
pub open spec fn scale(d: u8) -> int
    decreases d,
{
    if d == 0 {
        1
    } else {
        10 * scale((d - 1) as u8)
    }
}

/// The largest number of fractional digits an `i64` mantissa supports.
pub const MAX_DECIMALS: u8 = 18;

/// Whether `x` is representable as an `i64`.
pub open spec fn in_i64(x: int) -> bool {
    i64::MIN <= x <= i64::MAX
}

/// The absolute value of an integer.
pub open spec fn abs(x: int) -> int {
    if x < 0 {
        -x
    } else {
        x
    }
}

/// Integer division rounding toward zero, as Rust's `/` on signed integers does.
pub open spec fn trunc_div(x: int, d: int) -> int {
    let q = abs(x) / abs(d);
    if (x >= 0) == (d > 0) {
        q
    } else {
        -q
    }
}

/// The mantissa of the product of two numbers with `d` fractional digits,
/// computed at full width and rounded toward zero.
pub open spec fn spec_mul(d: u8, a: int, b: int) -> int {
    trunc_div(a * b, scale(d))
}

/// The mantissa of the quotient of two numbers with `d` fractional digits,
/// computed at full width and rounded toward zero.
pub open spec fn spec_div(d: u8, a: int, b: int) -> int {
    trunc_div(a * scale(d), b)
}

/// The mantissa with `d` fractional digits of `integer * 10^-s`, if it is exactly representable.
pub open spec fn spec_try_from_scaled(d: u8, integer: int, s: u8) -> Option<int> {
    if s > d {
        let divisor = scale((s - d) as u8);
        if integer % divisor != 0 {
            None
        } else {
            Some(integer / divisor)
        }
    } else if s < d {
        let m = integer * scale((d - s) as u8);
        if in_i64(m) {
            Some(m)
        } else {
            None
        }
    } else {
        Some(integer)
    }
}

/// The text `t` padded on the left with `0` to at least `width` characters.
pub open spec fn zero_padded(t: Seq<char>, width: nat) -> Seq<char> {
    if t.len() >= width {
        t
    } else {
        Seq::new((width - t.len()) as nat, |i: int| '0') + t
    }
}

/// The text `const_decimal` prints for the mantissa `raw` with `decimals` fractional digits:
/// the integer part (rounded toward zero, with its sign, and a `-` before a zero integer part
/// of a negative number), a `.`, and the magnitude of the remainder padded with `0` to
/// `decimals` digits.
pub open spec fn decimal_text(decimals: u8, raw: i64) -> Seq<char> {
    let s = scale(decimals);
    let integer = trunc_div(raw as int, s);
    let fractional = abs(raw - integer * s);
    let sign = if raw < 0 && integer == 0 {
        seq!['-']
    } else {
        Seq::<char>::empty()
    };
    sign + int_text(integer) + seq!['.'] + zero_padded(nat_text(fractional as nat), decimals as nat)
}

pub proof fn lemma_scale_pos(d: u8)
    ensures
        scale(d) >= 1,
    decreases d,
{
    if d > 0 {
        lemma_scale_pos((d - 1) as u8);
    }
}

pub proof fn lemma_scale_monotone(a: u8, b: u8)
    requires
        a <= b,
    ensures
        scale(a) <= scale(b),
    decreases b,
{
    if a < b {
        lemma_scale_monotone(a, (b - 1) as u8);
        lemma_scale_pos((b - 1) as u8);
    }
}

pub proof fn lemma_scale_bound(d: u8)
    requires
        d <= 18,
    ensures
        1 <= scale(d) <= 1_000_000_000_000_000_000,
{
    lemma_scale_pos(d);
    lemma_scale_monotone(d, 18);
    reveal_with_fuel(scale, 19);
}

/// Rounding toward zero is monotone in the dividend for a positive divisor.
/// Rounding toward zero commutes with negation.
pub proof fn lemma_trunc_div_neg(x: int, d: int)
    requires
        d > 0,
    ensures
        trunc_div(-x, d) == -trunc_div(x, d),
{
}

pub proof fn lemma_trunc_div_monotone(x: int, y: int, d: int)
    requires
        d > 0,
        x <= y,
    ensures
        trunc_div(x, d) <= trunc_div(y, d),
{
    if x >= 0 {
        vstd::arithmetic::div_mod::lemma_div_is_ordered(x, y, d);
    } else if y >= 0 {
        vstd::arithmetic::div_mod::lemma_div_pos_is_pos(-x, d);
        vstd::arithmetic::div_mod::lemma_div_pos_is_pos(y, d);
    } else {
        vstd::arithmetic::div_mod::lemma_div_is_ordered(-y, -x, d);
    }
}

/// Rounding toward zero keeps the sign of a non-negative dividend.
pub proof fn lemma_trunc_div_nonneg(x: int, d: int)
    requires
        d > 0,
        x >= 0,
    ensures
        trunc_div(x, d) >= 0,
        trunc_div(x, d) <= x,
{
    vstd::arithmetic::div_mod::lemma_div_pos_is_pos(x, d);
    vstd::arithmetic::div_mod::lemma_div_is_ordered_by_denominator(x, 1, d);
}

/// `const_decimal`'s multiplication of two decimals with `D` fractional digits:
/// the full width product divided by `10^D`, rounded toward zero.
#[verifier::external_body]
pub(crate) fn decimal_mul<const D: u8>(a: i64, b: i64) -> (r: i64)
    requires
        D <= MAX_DECIMALS,
        in_i64(spec_mul(D, a as int, b as int)),
    ensures
        r == spec_mul(D, a as int, b as int),
{
    (const_decimal::Decimal::<i64, D>(a) * const_decimal::Decimal::<i64, D>(b)).0
}

/// `const_decimal`'s division of two decimals with `D` fractional digits:
/// the full width `a * 10^D` divided by `b`, rounded toward zero.
#[verifier::external_body]
pub(crate) fn decimal_div<const D: u8>(a: i64, b: i64) -> (r: i64)
    requires
        D <= MAX_DECIMALS,
        b != 0,
        in_i64(spec_div(D, a as int, b as int)),
    ensures
        r == spec_div(D, a as int, b as int),
{
    (const_decimal::Decimal::<i64, D>(a) / const_decimal::Decimal::<i64, D>(b)).0
}

/// `const_decimal`'s lossless conversion of `integer * 10^-scale` to `D` fractional digits;
/// `None` where that value has no exact representation.
#[verifier::external_body]
pub(crate) fn decimal_try_from_scaled<const D: u8>(integer: i64, scale: u8) -> (r: Option<i64>)
    requires
        D <= MAX_DECIMALS,
        scale <= MAX_DECIMALS,
    ensures
        r is Some <==> spec_try_from_scaled(D, integer as int, scale) is Some,
        r is Some ==> spec_try_from_scaled(D, integer as int, scale) == Some(r->0 as int),
{
    const_decimal::Decimal::<i64, D>::try_from_scaled(integer, scale).map(|d| d.0)
}

/// The text of `const_decimal`'s `Display` for the mantissa `raw` with `D` fractional digits.
#[verifier::external_body]
pub(crate) fn decimal_to_string<const D: u8>(raw: i64) -> (r: String)
    requires
        D <= MAX_DECIMALS,
    ensures
        r@ == decimal_text(D, raw),
{
    const_decimal::Decimal::<i64, D>(raw).to_string()
}


/// Ten to the power of `D` at the width of an `i128`.
fn scale_i128<const D: u8>() -> (r: i128)
    requires
        D <= MAX_DECIMALS,
    ensures
        r == scale(D),
        1 <= r <= 1_000_000_000_000_000_000,
{
    proof {
        lemma_scale_bound(D);
        if D > 0 {
            assert((D - 0) as u8 == D);
        }
    }
    let one = decimal_try_from_scaled::<D>(1, 0);
    one.unwrap() as i128
}

/// Integer division rounding toward zero of values well within the width of an `i128`.
fn trunc_div_i128(x: i128, d: i128) -> (r: i128)
    requires
        d != 0,
        -0x4000_0000_0000_0000_0000_0000_0000_0000 <= x <= 0x4000_0000_0000_0000_0000_0000_0000_0000,
        -0x4000_0000_0000_0000_0000_0000_0000_0000 <= d <= 0x4000_0000_0000_0000_0000_0000_0000_0000,
    ensures
        r == trunc_div(x as int, d as int),
{
    let ax: u128 = if x < 0 {
        (-x) as u128
    } else {
        x as u128
    };
    let ad: u128 = if d < 0 {
        (-d) as u128
    } else {
        d as u128
    };
    let q: u128 = ax / ad;
    proof {
        assert(ax / ad <= ax) by (nonlinear_arith)
            requires
                ad >= 1,
        ;
        assert(ax == abs(x as int));
        assert(ad == abs(d as int));
    }
    if (x >= 0) == (d > 0) {
        q as i128
    } else {
        -(q as i128)
    }
}

proof fn lemma_product_bound(a: int, b: int)
    requires
        -0x8000_0000_0000_0000 <= a <= 0x8000_0000_0000_0000,
        -0x8000_0000_0000_0000 <= b <= 0x8000_0000_0000_0000,
    ensures
        -0x4000_0000_0000_0000_0000_0000_0000_0000 <= a * b <= 0x4000_0000_0000_0000_0000_0000_0000_0000,
{
    let ua = abs(a);
    let ub = abs(b);
    assert(ua * ub <= 0x8000_0000_0000_0000 * 0x8000_0000_0000_0000) by (nonlinear_arith)
        requires
            0 <= ua <= 0x8000_0000_0000_0000,
            0 <= ub <= 0x8000_0000_0000_0000,
    ;
    assert(abs(a * b) == ua * ub) by (nonlinear_arith)
        requires
            ua == abs(a),
            ub == abs(b),
    ;
}

/// The mantissa of the product of two decimals with `D` fractional digits, where it fits an
/// `i64`; `None` where it does not.
pub fn checked_mul_mantissa<const D: u8>(a: i64, b: i64) -> (r: Option<i64>)
    requires
        D <= MAX_DECIMALS,
    ensures
        r is Some <==> in_i64(spec_mul(D, a as int, b as int)),
        r is Some ==> r->0 == spec_mul(D, a as int, b as int),
{
    let s = scale_i128::<D>();
    proof {
        lemma_product_bound(a as int, b as int);
    }
    let x: i128 = (a as i128) * (b as i128);
    let q = trunc_div_i128(x, s);
    if q < -0x8000_0000_0000_0000i128 || q > 0x7fff_ffff_ffff_ffffi128 {
        None
    } else {
        Some(q as i64)
    }
}

/// The mantissa of the quotient of two decimals with `D` fractional digits, where it fits an
/// `i64`; `None` where it does not.
pub fn checked_div_mantissa<const D: u8>(a: i64, b: i64) -> (r: Option<i64>)
    requires
        D <= MAX_DECIMALS,
        b != 0,
    ensures
        r is Some <==> in_i64(spec_div(D, a as int, b as int)),
        r is Some ==> r->0 == spec_div(D, a as int, b as int),
{
    let s = scale_i128::<D>();
    proof {
        lemma_product_bound(a as int, s as int);
    }
    let x: i128 = (a as i128) * s;
    let q = trunc_div_i128(x, b as i128);
    if q < -0x8000_0000_0000_0000i128 || q > 0x7fff_ffff_ffff_ffffi128 {
        None
    } else {
        Some(q as i64)
    }
}

} // verus!
