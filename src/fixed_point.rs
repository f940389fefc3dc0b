//! Signed fixed-point numbers with 32 integer and 32 fractional bits, carried
//! as their raw `i64` bits (the value of `b` is `b / 2^32`). The arithmetic
//! itself is done by the `fixed` crate's `I32F32`.
use fixed::types::I32F32;
use vstd::prelude::*;

verus! {

/// `2^32`: the raw bits of the fixed-point number `1`.
pub open spec fn one() -> int {
    0x1_0000_0000
}

pub open spec fn fits_i64(v: int) -> bool {
    i64::MIN <= v <= i64::MAX
}

/// The product of two fixed-point numbers, rounded towards minus infinity.
pub open spec fn mul_spec(a: int, b: int) -> int {
    (a * b) / one()
}

/// Integer division rounded towards zero, for a positive divisor.
pub open spec fn trunc_div(a: int, b: int) -> int
    recommends
        b > 0,
{
    if a >= 0 {
        a / b
    } else {
        -((-a) / b)
    }
}

/// The quotient of two fixed-point numbers, rounded towards zero.
pub open spec fn div_spec(a: int, b: int) -> int {
    trunc_div(a * one(), b)
}

/// Relies on `I32F32::from_num` for an integer: the integer shifted into the
/// integer bits, which `I32F32` holds for every value of `i32`.
#[verifier::external_body]
pub(crate) fn fx_from_int(v: i64) -> (r: i64)
    requires
        i32::MIN <= v <= i32::MAX,
    ensures
        r == v * one(),
{
    I32F32::from_num(v).to_bits()
}

/// Relies on `I32F32 * I32F32`: the wide product shifted right by 32 bits,
/// that is rounded towards minus infinity; it panics (with debug assertions)
/// when the result does not fit.
#[verifier::external_body]
pub(crate) fn fx_mul(a: i64, b: i64) -> (r: i64)
    requires
        fits_i64(mul_spec(a as int, b as int)),
    ensures
        r == mul_spec(a as int, b as int),
{
    (I32F32::from_bits(a) * I32F32::from_bits(b)).to_bits()
}

/// Relies on `I32F32 / I32F32`: the dividend shifted left by 32 bits and
/// divided with Rust's integer division, which rounds towards zero.
#[verifier::external_body]
pub(crate) fn fx_div(a: i64, b: i64) -> (r: i64)
    requires
        b > 0,
        fits_i64(div_spec(a as int, b as int)),
    ensures
        r == div_spec(a as int, b as int),
{
    (I32F32::from_bits(a) / I32F32::from_bits(b)).to_bits()
}

/// Relies on `I32F32 / i64`: the raw bits divided by the integer with Rust's
/// integer division, which rounds towards zero.
#[verifier::external_body]
pub(crate) fn fx_div_int(a: i64, d: i64) -> (r: i64)
    requires
        d > 0,
    ensures
        r == trunc_div(a as int, d as int),
{
    (I32F32::from_bits(a) / d).to_bits()
}

/// Relies on `I32F32::to_num::<i32>`: fractional bits are discarded, which
/// rounds towards minus infinity; it panics (with debug assertions) when the
/// result does not fit.
#[verifier::external_body]
pub(crate) fn fx_to_i32(a: i64) -> (r: i32)
    requires
        i32::MIN <= a as int / one() <= i32::MAX,
    ensures
        r == a as int / one(),
{
    I32F32::from_bits(a).to_num::<i32>()
}

} // verus!
