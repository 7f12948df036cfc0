//! Fixed-point multiply/divide with the rounding of `soroban_fixed_point_math`.
//!
//! The arithmetic itself is done by the outside crate; this module states what
//! it returns and offers panic-free forms for callers that have proved the
//! operation is defined.
use vstd::prelude::*;

verus! {

/// Mathematical floor of `a / b` (for `b != 0`).
pub open spec fn floor_div(a: int, b: int) -> int {
    if b > 0 {
        a / b
    } else {
        (-a) / (-b)
    }
}

/// Mathematical ceiling of `a / b` (for `b != 0`).
pub open spec fn ceil_div(a: int, b: int) -> int {
    -floor_div(-a, b)
}

/// Whether `x * y / z` can be computed: the product fits in an `i128`, the divisor is
/// non-zero, and the quotient does not overflow.
pub open spec fn mul_div_defined(x: int, y: int, z: int) -> bool {
    &&& i128::MIN <= x * y <= i128::MAX
    &&& z != 0
    &&& !(x * y == i128::MIN && z == -1)
}

/// The value `floor(x * y / z)` as the fixed-point crate rounds it. When both the product
/// and the divisor are negative and do not divide evenly, the crate subtracts one more.
pub open spec fn mul_div_floor_value(x: int, y: int, z: int) -> int {
    let r = x * y;
    if r < 0 && z < 0 && r % z != 0 {
        floor_div(r, z) - 1
    } else {
        floor_div(r, z)
    }
}

/// The value `ceil(x * y / z)` as the fixed-point crate rounds it. When both the product
/// and the divisor are negative, the crate truncates, which rounds down.
pub open spec fn mul_div_ceil_value(x: int, y: int, z: int) -> int {
    let r = x * y;
    if r < 0 && z < 0 {
        floor_div(r, z)
    } else {
        ceil_div(r, z)
    }
}

/// `FixedPoint::fixed_mul_floor` of `soroban_fixed_point_math` for `i128`: `None` exactly when
/// `x * y` overflows or the division is undefined, otherwise the floored quotient
/// `x * y / denominator` (with the crate's rounding for a negative product over a negative divisor).
#[verifier::external_body]
pub(crate) fn ext_fixed_mul_floor(x: i128, y: i128, denominator: i128) -> (r: Option<i128>)
    ensures
        r is Some <==> mul_div_defined(x as int, y as int, denominator as int),
        r matches Some(v) ==> v == mul_div_floor_value(x as int, y as int, denominator as int),
{
    soroban_fixed_point_math::FixedPoint::fixed_mul_floor(x, y, denominator)
}

/// `FixedPoint::fixed_mul_ceil` of `soroban_fixed_point_math` for `i128`: `None` exactly when
/// `x * y` overflows or the division is undefined, otherwise the ceiled quotient
/// `x * y / denominator` (truncated for a negative product over a negative divisor).
#[verifier::external_body]
pub(crate) fn ext_fixed_mul_ceil(x: i128, y: i128, denominator: i128) -> (r: Option<i128>)
    ensures
        r is Some <==> mul_div_defined(x as int, y as int, denominator as int),
        r matches Some(v) ==> v == mul_div_ceil_value(x as int, y as int, denominator as int),
{
    soroban_fixed_point_math::FixedPoint::fixed_mul_ceil(x, y, denominator)
}

/// `FixedPoint::fixed_div_floor` of `soroban_fixed_point_math` for `i128`: computes
/// `x * denominator / y` floored, `None` exactly when that is undefined.
#[verifier::external_body]
pub(crate) fn ext_fixed_div_floor(x: i128, y: i128, denominator: i128) -> (r: Option<i128>)
    ensures
        r is Some <==> mul_div_defined(x as int, denominator as int, y as int),
        r matches Some(v) ==> v == mul_div_floor_value(x as int, denominator as int, y as int),
{
    soroban_fixed_point_math::FixedPoint::fixed_div_floor(x, y, denominator)
}

/// `FixedPoint::fixed_div_ceil` of `soroban_fixed_point_math` for `i128`: computes
/// `x * denominator / y` ceiled, `None` exactly when that is undefined.
#[verifier::external_body]
pub(crate) fn ext_fixed_div_ceil(x: i128, y: i128, denominator: i128) -> (r: Option<i128>)
    ensures
        r is Some <==> mul_div_defined(x as int, denominator as int, y as int),
        r matches Some(v) ==> v == mul_div_ceil_value(x as int, denominator as int, y as int),
{
    soroban_fixed_point_math::FixedPoint::fixed_div_ceil(x, y, denominator)
}

/// `floor(x * y / d)`, for inputs on which it is defined.
pub fn mul_floor(x: i128, y: i128, d: i128) -> (r: i128)
    requires
        mul_div_defined(x as int, y as int, d as int),
    ensures
        r == mul_div_floor_value(x as int, y as int, d as int),
{
    ext_fixed_mul_floor(x, y, d).unwrap()
}

/// `ceil(x * y / d)`, for inputs on which it is defined.
pub fn mul_ceil(x: i128, y: i128, d: i128) -> (r: i128)
    requires
        mul_div_defined(x as int, y as int, d as int),
    ensures
        r == mul_div_ceil_value(x as int, y as int, d as int),
{
    ext_fixed_mul_ceil(x, y, d).unwrap()
}

/// `floor(x * d / y)`, for inputs on which it is defined.
pub fn div_floor(x: i128, y: i128, d: i128) -> (r: i128)
    requires
        mul_div_defined(x as int, d as int, y as int),
    ensures
        r == mul_div_floor_value(x as int, d as int, y as int),
{
    ext_fixed_div_floor(x, y, d).unwrap()
}

/// `ceil(x * d / y)`, for inputs on which it is defined.
pub fn div_ceil(x: i128, y: i128, d: i128) -> (r: i128)
    requires
        mul_div_defined(x as int, d as int, y as int),
    ensures
        r == mul_div_ceil_value(x as int, d as int, y as int),
{
    ext_fixed_div_ceil(x, y, d).unwrap()
}

/// With a positive divisor the rounded quotients are the ordinary floor and ceiling.
pub proof fn lemma_positive_divisor(x: int, y: int, z: int)
    requires
        z > 0,
    ensures
        mul_div_floor_value(x, y, z) == (x * y) / z,
        mul_div_ceil_value(x, y, z) == -((-(x * y)) / z),
        mul_div_floor_value(x, y, z) <= mul_div_ceil_value(x, y, z) <= mul_div_floor_value(x, y, z) + 1,
        (x * y) % z == 0 ==> mul_div_floor_value(x, y, z) == mul_div_ceil_value(x, y, z),
{
    let r = x * y;
    vstd::arithmetic::div_mod::lemma_fundamental_div_mod(r, z);
    vstd::arithmetic::div_mod::lemma_fundamental_div_mod(-r, z);
    let q1 = r / z;
    let q2 = (-r) / z;
    let m1 = r % z;
    let m2 = (-r) % z;
    assert(z * q1 + m1 == r);
    assert(z * q2 + m2 == -r);
    assert(0 <= m1 < z && 0 <= m2 < z);
    assert(-1 <= q1 + q2 <= 0 && (m1 == 0 ==> q1 + q2 == 0)) by (nonlinear_arith)
        requires
            z * q1 + m1 == r,
            z * q2 + m2 == -r,
            0 <= m1 < z,
            0 <= m2 < z,
            z > 0,
    {
        assert(z * (q1 + q2) == -(m1 + m2));
    }
}

/// A non-negative product over a positive divisor gives non-negative quotients.
pub proof fn lemma_mul_div_nonneg(x: int, y: int, z: int)
    requires
        x >= 0,
        y >= 0,
        z > 0,
    ensures
        0 <= mul_div_floor_value(x, y, z) <= mul_div_ceil_value(x, y, z),
{
    lemma_positive_divisor(x, y, z);
    assert(x * y >= 0) by (nonlinear_arith) requires x >= 0, y >= 0;
    assert((x * y) / z >= 0) by (nonlinear_arith) requires x * y >= 0, z > 0;
}

/// Multiplying a floored quotient back never exceeds the dividend; a ceiled one never falls short.
pub proof fn lemma_quotient_times_divisor(n: int, r: int)
    requires
        r > 0,
    ensures
        (n / r) * r <= n,
        (-((-n) / r)) * r >= n,
{
    vstd::arithmetic::div_mod::lemma_fundamental_div_mod(n, r);
    vstd::arithmetic::div_mod::lemma_fundamental_div_mod(-n, r);
    assert((n / r) * r <= n) by (nonlinear_arith)
        requires n == r * (n / r) + n % r, 0 <= n % r;
    assert((-((-n) / r)) * r >= n) by (nonlinear_arith)
        requires -n == r * ((-n) / r) + (-n) % r, 0 <= (-n) % r;
}

/// Dividing a multiple of a positive scalar by it gives back the factor, for both roundings.
pub proof fn lemma_scaled_quotient(a: int, s: int)
    requires
        s > 0,
    ensures
        (a * s) / s == a,
        (-(a * s)) / s == -a,
{
    vstd::arithmetic::mul::lemma_mul_is_commutative(a, s);
    vstd::arithmetic::div_mod::lemma_div_multiples_vanish(a, s);
    vstd::arithmetic::mul::lemma_mul_is_commutative(-a, s);
    vstd::arithmetic::div_mod::lemma_div_multiples_vanish(-a, s);
    assert(-(a * s) == (-a) * s) by (nonlinear_arith);
}

/// Floor and ceiling of a quotient by a positive divisor are monotone in the dividend.
pub proof fn lemma_quotient_monotone(x: int, y: int, z: int)
    requires
        x <= y,
        z > 0,
    ensures
        x / z <= y / z,
        -((-x) / z) <= -((-y) / z),
{
    vstd::arithmetic::div_mod::lemma_div_is_ordered(x, y, z);
    vstd::arithmetic::div_mod::lemma_div_is_ordered(-y, -x, z);
}

} // verus!
