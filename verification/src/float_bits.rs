//! IEEE 754 floating-point support over raw bit patterns.
//!
//! The machine stores a floating-point cell as its IEEE 754 bit pattern
//! (`u32` for single precision, `u64` for double precision). Equality and
//! the zero test are pure functions of the bit layout and are implemented
//! and verified here directly. The four rounding arithmetic operations are
//! performed by `rustc_apfloat`, a software implementation of IEEE 754
//! binary arithmetic that works bits-in/bits-out; each operation's result
//! is named by an uninterpreted function of the operand bits.

use vstd::prelude::*;
use rustc_apfloat::Float;

verus! {

/// The bit pattern of the IEEE single-precision sum of the two operand
/// bit patterns, rounding to nearest, ties to even.
pub uninterp spec fn f32_add_bits(a: u32, b: u32) -> u32;

/// The bit pattern of the IEEE single-precision difference.
pub uninterp spec fn f32_sub_bits(a: u32, b: u32) -> u32;

/// The bit pattern of the IEEE single-precision product.
pub uninterp spec fn f32_mul_bits(a: u32, b: u32) -> u32;

/// The bit pattern of the IEEE single-precision quotient.
pub uninterp spec fn f32_div_bits(a: u32, b: u32) -> u32;

/// The bit pattern of the IEEE double-precision sum.
pub uninterp spec fn f64_add_bits(a: u64, b: u64) -> u64;

/// The bit pattern of the IEEE double-precision difference.
pub uninterp spec fn f64_sub_bits(a: u64, b: u64) -> u64;

/// The bit pattern of the IEEE double-precision product.
pub uninterp spec fn f64_mul_bits(a: u64, b: u64) -> u64;

/// The bit pattern of the IEEE double-precision quotient.
pub uninterp spec fn f64_div_bits(a: u64, b: u64) -> u64;

/// Relies on `rustc_apfloat::ieee::Single`'s `Add`: the sum of two
/// single-precision bit patterns, a function of the operand bits alone.
#[verifier::external_body]
pub(crate) fn f32_add(a: u32, b: u32) -> (r: u32)
    ensures
        r == f32_add_bits(a, b),
{
    let x = rustc_apfloat::ieee::Single::from_bits(a as u128);
    let y = rustc_apfloat::ieee::Single::from_bits(b as u128);
    (x + y).value.to_bits() as u32
}

/// Relies on `rustc_apfloat::ieee::Single`'s `Sub`: the difference of two
/// single-precision bit patterns, a function of the operand bits alone.
#[verifier::external_body]
pub(crate) fn f32_sub(a: u32, b: u32) -> (r: u32)
    ensures
        r == f32_sub_bits(a, b),
{
    let x = rustc_apfloat::ieee::Single::from_bits(a as u128);
    let y = rustc_apfloat::ieee::Single::from_bits(b as u128);
    (x - y).value.to_bits() as u32
}

/// Relies on `rustc_apfloat::ieee::Single`'s `Mul`: the product of two
/// single-precision bit patterns, a function of the operand bits alone.
#[verifier::external_body]
pub(crate) fn f32_mul(a: u32, b: u32) -> (r: u32)
    ensures
        r == f32_mul_bits(a, b),
{
    let x = rustc_apfloat::ieee::Single::from_bits(a as u128);
    let y = rustc_apfloat::ieee::Single::from_bits(b as u128);
    (x * y).value.to_bits() as u32
}

/// Relies on `rustc_apfloat::ieee::Single`'s `Div`: the quotient of two
/// single-precision bit patterns, a function of the operand bits alone.
#[verifier::external_body]
pub(crate) fn f32_div(a: u32, b: u32) -> (r: u32)
    ensures
        r == f32_div_bits(a, b),
{
    let x = rustc_apfloat::ieee::Single::from_bits(a as u128);
    let y = rustc_apfloat::ieee::Single::from_bits(b as u128);
    (x / y).value.to_bits() as u32
}

/// Relies on `rustc_apfloat::ieee::Double`'s `Add`: the sum of two
/// double-precision bit patterns, a function of the operand bits alone.
#[verifier::external_body]
pub(crate) fn f64_add(a: u64, b: u64) -> (r: u64)
    ensures
        r == f64_add_bits(a, b),
{
    let x = rustc_apfloat::ieee::Double::from_bits(a as u128);
    let y = rustc_apfloat::ieee::Double::from_bits(b as u128);
    (x + y).value.to_bits() as u64
}

/// Relies on `rustc_apfloat::ieee::Double`'s `Sub`: the difference of two
/// double-precision bit patterns, a function of the operand bits alone.
#[verifier::external_body]
pub(crate) fn f64_sub(a: u64, b: u64) -> (r: u64)
    ensures
        r == f64_sub_bits(a, b),
{
    let x = rustc_apfloat::ieee::Double::from_bits(a as u128);
    let y = rustc_apfloat::ieee::Double::from_bits(b as u128);
    (x - y).value.to_bits() as u64
}

/// Relies on `rustc_apfloat::ieee::Double`'s `Mul`: the product of two
/// double-precision bit patterns, a function of the operand bits alone.
#[verifier::external_body]
pub(crate) fn f64_mul(a: u64, b: u64) -> (r: u64)
    ensures
        r == f64_mul_bits(a, b),
{
    let x = rustc_apfloat::ieee::Double::from_bits(a as u128);
    let y = rustc_apfloat::ieee::Double::from_bits(b as u128);
    (x * y).value.to_bits() as u64
}

/// Relies on `rustc_apfloat::ieee::Double`'s `Div`: the quotient of two
/// double-precision bit patterns, a function of the operand bits alone.
#[verifier::external_body]
pub(crate) fn f64_div(a: u64, b: u64) -> (r: u64)
    ensures
        r == f64_div_bits(a, b),
{
    let x = rustc_apfloat::ieee::Double::from_bits(a as u128);
    let y = rustc_apfloat::ieee::Double::from_bits(b as u128);
    (x / y).value.to_bits() as u64
}

/// Whether a single-precision bit pattern encodes a NaN: exponent bits all
/// set, significand nonzero.
pub open spec fn spec_f32_is_nan(b: u32) -> bool {
    b & 0x7F80_0000 == 0x7F80_0000 && b & 0x007F_FFFF != 0
}

/// Whether a single-precision bit pattern encodes positive or negative zero.
pub open spec fn spec_f32_is_zero(b: u32) -> bool {
    b & 0x7FFF_FFFF == 0
}

/// IEEE equality of two single-precision bit patterns: NaN equals nothing,
/// positive and negative zero are equal, and otherwise equal values have
/// equal bits.
pub open spec fn spec_f32_eq(a: u32, b: u32) -> bool {
    !spec_f32_is_nan(a) && !spec_f32_is_nan(b) && (a == b || (spec_f32_is_zero(a)
        && spec_f32_is_zero(b)))
}

/// Whether a double-precision bit pattern encodes a NaN.
pub open spec fn spec_f64_is_nan(b: u64) -> bool {
    b & 0x7FF0_0000_0000_0000 == 0x7FF0_0000_0000_0000 && b & 0x000F_FFFF_FFFF_FFFF != 0
}

/// Whether a double-precision bit pattern encodes positive or negative zero.
pub open spec fn spec_f64_is_zero(b: u64) -> bool {
    b & 0x7FFF_FFFF_FFFF_FFFF == 0
}

/// IEEE equality of two double-precision bit patterns.
pub open spec fn spec_f64_eq(a: u64, b: u64) -> bool {
    !spec_f64_is_nan(a) && !spec_f64_is_nan(b) && (a == b || (spec_f64_is_zero(a)
        && spec_f64_is_zero(b)))
}

/// IEEE equality test on single-precision bit patterns.
pub fn f32_eq(a: u32, b: u32) -> (r: bool)
    ensures
        r == spec_f32_eq(a, b),
{
    let a_nan = a & 0x7F80_0000 == 0x7F80_0000 && a & 0x007F_FFFF != 0;
    let b_nan = b & 0x7F80_0000 == 0x7F80_0000 && b & 0x007F_FFFF != 0;
    !a_nan && !b_nan && (a == b || (a & 0x7FFF_FFFF == 0 && b & 0x7FFF_FFFF == 0))
}

/// IEEE equality test on double-precision bit patterns.
pub fn f64_eq(a: u64, b: u64) -> (r: bool)
    ensures
        r == spec_f64_eq(a, b),
{
    let a_nan = a & 0x7FF0_0000_0000_0000 == 0x7FF0_0000_0000_0000 && a & 0x000F_FFFF_FFFF_FFFF
        != 0;
    let b_nan = b & 0x7FF0_0000_0000_0000 == 0x7FF0_0000_0000_0000 && b & 0x000F_FFFF_FFFF_FFFF
        != 0;
    !a_nan && !b_nan && (a == b || (a & 0x7FFF_FFFF_FFFF_FFFF == 0 && b & 0x7FFF_FFFF_FFFF_FFFF
        == 0))
}

} // verus!
