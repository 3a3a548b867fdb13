//! The tagged value model.
//!
//! A [`MikuType`] is the machine's only runtime value: one of eight integer
//! kinds, two IEEE 754 floating-point kinds, or null. The two floating-point
//! variants carry the raw IEEE bit pattern (`u32` for single precision,
//! `u64` for double precision), so equality of the Rust values is bitwise;
//! the machine-level comparison [`MikuType::equals`] applies IEEE semantics
//! (NaN compares unequal to everything, positive and negative zero compare
//! equal).
//!
//! Arithmetic and equality are defined only between two cells of the same
//! tag; nothing is ever widened or coerced. Integer arithmetic wraps on
//! overflow, the minimal-surprise convention for a low-level machine.

use vstd::prelude::*;
use crate::error::{CellOp, MikuError, TypeTag};
use crate::float_bits::{
    f32_add, f32_add_bits, f32_div, f32_div_bits, f32_eq, f32_mul, f32_mul_bits, f32_sub,
    f32_sub_bits, f64_add, f64_add_bits, f64_div, f64_div_bits, f64_eq, f64_mul, f64_mul_bits,
    f64_sub, f64_sub_bits, spec_f32_eq, spec_f32_is_zero, spec_f64_eq, spec_f64_is_zero,
};
use vstd::arithmetic::div_mod::lemma_div_basics_5;
use vstd::wrapping::{
    i16_specs, i32_specs, i64_specs, i8_specs, u16_specs, u32_specs, u64_specs, u8_specs,
};

verus! {

/// A tagged cell: the only value the machine computes with.
///
/// The `U64` variant doubles as an address/pointer value. `F32` and `F64`
/// hold the IEEE 754 bit pattern of the number they stand for.
#[derive(Debug, Clone, Copy, PartialEq, Eq, Structural)]
pub enum MikuType {
    U8(u8),
    U16(u16),
    U32(u32),
    /// Also used as a pointer.
    U64(u64),
    I8(i8),
    I16(i16),
    I32(i32),
    I64(i64),
    /// An IEEE 754 single-precision value, held as its bit pattern.
    F32(u32),
    /// An IEEE 754 double-precision value, held as its bit pattern.
    F64(u64),
    NULL,
}

/// The tag of a cell, without its payload.
pub open spec fn tag_of(c: MikuType) -> TypeTag {
    match c {
        MikuType::U8(_) => TypeTag::U8,
        MikuType::U16(_) => TypeTag::U16,
        MikuType::U32(_) => TypeTag::U32,
        MikuType::U64(_) => TypeTag::U64,
        MikuType::I8(_) => TypeTag::I8,
        MikuType::I16(_) => TypeTag::I16,
        MikuType::I32(_) => TypeTag::I32,
        MikuType::I64(_) => TypeTag::I64,
        MikuType::F32(_) => TypeTag::F32,
        MikuType::F64(_) => TypeTag::F64,
        MikuType::NULL => TypeTag::Null,
    }
}

impl MikuType {
    /// The tag of this cell.
    pub fn tag(&self) -> (t: TypeTag)
        ensures
            t == tag_of(*self),
    {
        match self {
            MikuType::U8(_) => TypeTag::U8,
            MikuType::U16(_) => TypeTag::U16,
            MikuType::U32(_) => TypeTag::U32,
            MikuType::U64(_) => TypeTag::U64,
            MikuType::I8(_) => TypeTag::I8,
            MikuType::I16(_) => TypeTag::I16,
            MikuType::I32(_) => TypeTag::I32,
            MikuType::I64(_) => TypeTag::I64,
            MikuType::F32(_) => TypeTag::F32,
            MikuType::F64(_) => TypeTag::F64,
            MikuType::NULL => TypeTag::Null,
        }
    }
}

/// Whether a cell is the zero of its numeric tag. A floating-point cell is
/// zero when its bit pattern is positive or negative zero; a null cell is
/// never zero.
pub open spec fn spec_is_zero(c: MikuType) -> bool {
    match c {
        MikuType::U8(x) => x == 0,
        MikuType::U16(x) => x == 0,
        MikuType::U32(x) => x == 0,
        MikuType::U64(x) => x == 0,
        MikuType::I8(x) => x == 0,
        MikuType::I16(x) => x == 0,
        MikuType::I32(x) => x == 0,
        MikuType::I64(x) => x == 0,
        MikuType::F32(b) => spec_f32_is_zero(b),
        MikuType::F64(b) => spec_f64_is_zero(b),
        MikuType::NULL => false,
    }
}

/// Truncated integer division (rounding toward zero), the convention of the
/// machine's signed division. Meaningful only for `d != 0`.
pub open spec fn spec_div_trunc(x: int, d: int) -> int {
    if x >= 0 && d > 0 {
        x / d
    } else if x >= 0 {
        -(x / -d)
    } else if d > 0 {
        -(-x / d)
    } else {
        -x / -d
    }
}

/// Truncated division stays within a two's-complement range `[lo, hi]`
/// whenever the one overflowing pair `lo / -1` is excluded.
proof fn lemma_div_trunc_range(x: int, d: int, lo: int, hi: int)
    requires
        d != 0,
        lo <= x <= hi,
        lo < 0 < hi,
        hi == -lo - 1,
        !(x == lo && d == -1),
    ensures
        lo <= spec_div_trunc(x, d) <= hi,
{
    if x >= 0 && d > 0 {
        lemma_div_basics_5(x, d);
    } else if x >= 0 {
        lemma_div_basics_5(x, -d);
    } else if d > 0 {
        lemma_div_basics_5(-x, d);
        if -x / d == -lo {
            // only possible when d == 1, and then x itself is lo
            assert(d >= 2 ==> -x / d <= -x / 2 < -lo) by {
                lemma_div_basics_5(-x, 2);
                if d >= 2 {
                    vstd::arithmetic::div_mod::lemma_div_is_ordered_by_denominator(-x, 2, d);
                }
            }
        }
    } else {
        lemma_div_basics_5(-x, -d);
        if -x / -d > hi {
            assert(-d >= 2 ==> -x / -d <= -x / 2 <= -lo / 2) by {
                if -d >= 2 {
                    vstd::arithmetic::div_mod::lemma_div_is_ordered_by_denominator(-x, 2, -d);
                    vstd::arithmetic::div_mod::lemma_div_is_ordered(-x, -lo, 2);
                }
            }
        }
    }
}

/// The wrapped result of dividing one signed 8-bit value by another:
/// truncated division, except that the minimum value divided by negative
/// one wraps back to the minimum value. Meaningful only for `b != 0`.
pub open spec fn spec_div_i8(a: i8, b: i8) -> i8 {
    if a == i8::MIN && b == -1 {
        i8::MIN
    } else {
        spec_div_trunc(a as int, b as int) as i8
    }
}

/// Wrapped signed 16-bit division; see [`spec_div_i8`].
pub open spec fn spec_div_i16(a: i16, b: i16) -> i16 {
    if a == i16::MIN && b == -1 {
        i16::MIN
    } else {
        spec_div_trunc(a as int, b as int) as i16
    }
}

/// Wrapped signed 32-bit division; see [`spec_div_i8`].
pub open spec fn spec_div_i32(a: i32, b: i32) -> i32 {
    if a == i32::MIN && b == -1 {
        i32::MIN
    } else {
        spec_div_trunc(a as int, b as int) as i32
    }
}

/// Wrapped signed 64-bit division; see [`spec_div_i8`].
pub open spec fn spec_div_i64(a: i64, b: i64) -> i64 {
    if a == i64::MIN && b == -1 {
        i64::MIN
    } else {
        spec_div_trunc(a as int, b as int) as i64
    }
}

/// The sum of two cells: wrapping addition of the matched integer tag, IEEE
/// addition of the matched floating-point tag, and a tag-mismatch error for
/// every other pairing.
pub open spec fn spec_add(a: MikuType, b: MikuType) -> Result<MikuType, MikuError> {
    match (a, b) {
        (MikuType::U8(x), MikuType::U8(y)) => Ok(MikuType::U8(u8_specs::wrapping_add(x, y))),
        (MikuType::U16(x), MikuType::U16(y)) => Ok(MikuType::U16(u16_specs::wrapping_add(x, y))),
        (MikuType::U32(x), MikuType::U32(y)) => Ok(MikuType::U32(u32_specs::wrapping_add(x, y))),
        (MikuType::U64(x), MikuType::U64(y)) => Ok(MikuType::U64(u64_specs::wrapping_add(x, y))),
        (MikuType::I8(x), MikuType::I8(y)) => Ok(MikuType::I8(i8_specs::wrapping_add(x, y))),
        (MikuType::I16(x), MikuType::I16(y)) => Ok(MikuType::I16(i16_specs::wrapping_add(x, y))),
        (MikuType::I32(x), MikuType::I32(y)) => Ok(MikuType::I32(i32_specs::wrapping_add(x, y))),
        (MikuType::I64(x), MikuType::I64(y)) => Ok(MikuType::I64(i64_specs::wrapping_add(x, y))),
        (MikuType::F32(x), MikuType::F32(y)) => Ok(MikuType::F32(f32_add_bits(x, y))),
        (MikuType::F64(x), MikuType::F64(y)) => Ok(MikuType::F64(f64_add_bits(x, y))),
        _ => Err(
            MikuError::UndefinedOperationBetweenTypesError(CellOp::Add, tag_of(a), tag_of(b)),
        ),
    }
}

/// The difference of two cells; see [`spec_add`] for the tag rules.
pub open spec fn spec_subtract(a: MikuType, b: MikuType) -> Result<MikuType, MikuError> {
    match (a, b) {
        (MikuType::U8(x), MikuType::U8(y)) => Ok(MikuType::U8(u8_specs::wrapping_sub(x, y))),
        (MikuType::U16(x), MikuType::U16(y)) => Ok(MikuType::U16(u16_specs::wrapping_sub(x, y))),
        (MikuType::U32(x), MikuType::U32(y)) => Ok(MikuType::U32(u32_specs::wrapping_sub(x, y))),
        (MikuType::U64(x), MikuType::U64(y)) => Ok(MikuType::U64(u64_specs::wrapping_sub(x, y))),
        (MikuType::I8(x), MikuType::I8(y)) => Ok(MikuType::I8(i8_specs::wrapping_sub(x, y))),
        (MikuType::I16(x), MikuType::I16(y)) => Ok(MikuType::I16(i16_specs::wrapping_sub(x, y))),
        (MikuType::I32(x), MikuType::I32(y)) => Ok(MikuType::I32(i32_specs::wrapping_sub(x, y))),
        (MikuType::I64(x), MikuType::I64(y)) => Ok(MikuType::I64(i64_specs::wrapping_sub(x, y))),
        (MikuType::F32(x), MikuType::F32(y)) => Ok(MikuType::F32(f32_sub_bits(x, y))),
        (MikuType::F64(x), MikuType::F64(y)) => Ok(MikuType::F64(f64_sub_bits(x, y))),
        _ => Err(
            MikuError::UndefinedOperationBetweenTypesError(CellOp::Subtract, tag_of(a), tag_of(b)),
        ),
    }
}

/// The product of two cells; see [`spec_add`] for the tag rules.
pub open spec fn spec_multiply(a: MikuType, b: MikuType) -> Result<MikuType, MikuError> {
    match (a, b) {
        (MikuType::U8(x), MikuType::U8(y)) => Ok(MikuType::U8(u8_specs::wrapping_mul(x, y))),
        (MikuType::U16(x), MikuType::U16(y)) => Ok(MikuType::U16(u16_specs::wrapping_mul(x, y))),
        (MikuType::U32(x), MikuType::U32(y)) => Ok(MikuType::U32(u32_specs::wrapping_mul(x, y))),
        (MikuType::U64(x), MikuType::U64(y)) => Ok(MikuType::U64(u64_specs::wrapping_mul(x, y))),
        (MikuType::I8(x), MikuType::I8(y)) => Ok(MikuType::I8(i8_specs::wrapping_mul(x, y))),
        (MikuType::I16(x), MikuType::I16(y)) => Ok(MikuType::I16(i16_specs::wrapping_mul(x, y))),
        (MikuType::I32(x), MikuType::I32(y)) => Ok(MikuType::I32(i32_specs::wrapping_mul(x, y))),
        (MikuType::I64(x), MikuType::I64(y)) => Ok(MikuType::I64(i64_specs::wrapping_mul(x, y))),
        (MikuType::F32(x), MikuType::F32(y)) => Ok(MikuType::F32(f32_mul_bits(x, y))),
        (MikuType::F64(x), MikuType::F64(y)) => Ok(MikuType::F64(f64_mul_bits(x, y))),
        _ => Err(
            MikuError::UndefinedOperationBetweenTypesError(CellOp::Multiply, tag_of(a), tag_of(b)),
        ),
    }
}

/// The quotient of two cells. The zero test on the right operand comes
/// first, across every tag, so dividing by any tag's zero fails with
/// [`MikuError::DivisionByZeroError`] even when the tags differ. Integer
/// division truncates toward zero and wraps on the one overflowing pair;
/// floating-point division follows IEEE.
pub open spec fn spec_divide(a: MikuType, b: MikuType) -> Result<MikuType, MikuError> {
    if spec_is_zero(b) {
        Err(MikuError::DivisionByZeroError)
    } else {
        match (a, b) {
            (MikuType::U8(x), MikuType::U8(y)) => Ok(MikuType::U8((x / y) as u8)),
            (MikuType::U16(x), MikuType::U16(y)) => Ok(MikuType::U16((x / y) as u16)),
            (MikuType::U32(x), MikuType::U32(y)) => Ok(MikuType::U32((x / y) as u32)),
            (MikuType::U64(x), MikuType::U64(y)) => Ok(MikuType::U64((x / y) as u64)),
            (MikuType::I8(x), MikuType::I8(y)) => Ok(MikuType::I8(spec_div_i8(x, y))),
            (MikuType::I16(x), MikuType::I16(y)) => Ok(MikuType::I16(spec_div_i16(x, y))),
            (MikuType::I32(x), MikuType::I32(y)) => Ok(MikuType::I32(spec_div_i32(x, y))),
            (MikuType::I64(x), MikuType::I64(y)) => Ok(MikuType::I64(spec_div_i64(x, y))),
            (MikuType::F32(x), MikuType::F32(y)) => Ok(MikuType::F32(f32_div_bits(x, y))),
            (MikuType::F64(x), MikuType::F64(y)) => Ok(MikuType::F64(f64_div_bits(x, y))),
            _ => Err(
                MikuError::UndefinedOperationBetweenTypesError(
                    CellOp::Divide,
                    tag_of(a),
                    tag_of(b),
                ),
            ),
        }
    }
}

/// Equality of two cells of the same tag: integer and null cells compare
/// by value, floating-point cells by IEEE equality (so NaN is unequal even
/// to itself). Differently tagged cells do not compare; that is an error.
pub open spec fn spec_equals(a: MikuType, b: MikuType) -> Result<bool, MikuError> {
    match (a, b) {
        (MikuType::U8(x), MikuType::U8(y)) => Ok(x == y),
        (MikuType::U16(x), MikuType::U16(y)) => Ok(x == y),
        (MikuType::U32(x), MikuType::U32(y)) => Ok(x == y),
        (MikuType::U64(x), MikuType::U64(y)) => Ok(x == y),
        (MikuType::I8(x), MikuType::I8(y)) => Ok(x == y),
        (MikuType::I16(x), MikuType::I16(y)) => Ok(x == y),
        (MikuType::I32(x), MikuType::I32(y)) => Ok(x == y),
        (MikuType::I64(x), MikuType::I64(y)) => Ok(x == y),
        (MikuType::F32(x), MikuType::F32(y)) => Ok(spec_f32_eq(x, y)),
        (MikuType::F64(x), MikuType::F64(y)) => Ok(spec_f64_eq(x, y)),
        (MikuType::NULL, MikuType::NULL) => Ok(true),
        _ => Err(
            MikuError::UndefinedOperationBetweenTypesError(CellOp::Equals, tag_of(a), tag_of(b)),
        ),
    }
}

impl MikuType {
    /// Whether this cell is the zero of its numeric tag.
    pub fn is_zero(&self) -> (r: bool)
        ensures
            r == spec_is_zero(*self),
    {
        match *self {
            MikuType::U8(x) => x == 0,
            MikuType::U16(x) => x == 0,
            MikuType::U32(x) => x == 0,
            MikuType::U64(x) => x == 0,
            MikuType::I8(x) => x == 0,
            MikuType::I16(x) => x == 0,
            MikuType::I32(x) => x == 0,
            MikuType::I64(x) => x == 0,
            MikuType::F32(b) => b & 0x7FFF_FFFF == 0,
            MikuType::F64(b) => b & 0x7FFF_FFFF_FFFF_FFFF == 0,
            MikuType::NULL => false,
        }
    }

    /// Add two cells of the same tag; wraps on integer overflow.
    pub fn add(a: MikuType, b: MikuType) -> (r: Result<MikuType, MikuError>)
        ensures
            r == spec_add(a, b),
    {
        match (a, b) {
            (MikuType::U8(x), MikuType::U8(y)) => Ok(MikuType::U8(x.wrapping_add(y))),
            (MikuType::U16(x), MikuType::U16(y)) => Ok(MikuType::U16(x.wrapping_add(y))),
            (MikuType::U32(x), MikuType::U32(y)) => Ok(MikuType::U32(x.wrapping_add(y))),
            (MikuType::U64(x), MikuType::U64(y)) => Ok(MikuType::U64(x.wrapping_add(y))),
            (MikuType::I8(x), MikuType::I8(y)) => Ok(MikuType::I8(x.wrapping_add(y))),
            (MikuType::I16(x), MikuType::I16(y)) => Ok(MikuType::I16(x.wrapping_add(y))),
            (MikuType::I32(x), MikuType::I32(y)) => Ok(MikuType::I32(x.wrapping_add(y))),
            (MikuType::I64(x), MikuType::I64(y)) => Ok(MikuType::I64(x.wrapping_add(y))),
            (MikuType::F32(x), MikuType::F32(y)) => Ok(MikuType::F32(f32_add(x, y))),
            (MikuType::F64(x), MikuType::F64(y)) => Ok(MikuType::F64(f64_add(x, y))),
            _ => Err(
                MikuError::UndefinedOperationBetweenTypesError(CellOp::Add, a.tag(), b.tag()),
            ),
        }
    }

    /// Subtract two cells of the same tag; wraps on integer overflow.
    pub fn subtract(a: MikuType, b: MikuType) -> (r: Result<MikuType, MikuError>)
        ensures
            r == spec_subtract(a, b),
    {
        match (a, b) {
            (MikuType::U8(x), MikuType::U8(y)) => Ok(MikuType::U8(x.wrapping_sub(y))),
            (MikuType::U16(x), MikuType::U16(y)) => Ok(MikuType::U16(x.wrapping_sub(y))),
            (MikuType::U32(x), MikuType::U32(y)) => Ok(MikuType::U32(x.wrapping_sub(y))),
            (MikuType::U64(x), MikuType::U64(y)) => Ok(MikuType::U64(x.wrapping_sub(y))),
            (MikuType::I8(x), MikuType::I8(y)) => Ok(MikuType::I8(x.wrapping_sub(y))),
            (MikuType::I16(x), MikuType::I16(y)) => Ok(MikuType::I16(x.wrapping_sub(y))),
            (MikuType::I32(x), MikuType::I32(y)) => Ok(MikuType::I32(x.wrapping_sub(y))),
            (MikuType::I64(x), MikuType::I64(y)) => Ok(MikuType::I64(x.wrapping_sub(y))),
            (MikuType::F32(x), MikuType::F32(y)) => Ok(MikuType::F32(f32_sub(x, y))),
            (MikuType::F64(x), MikuType::F64(y)) => Ok(MikuType::F64(f64_sub(x, y))),
            _ => Err(
                MikuError::UndefinedOperationBetweenTypesError(CellOp::Subtract, a.tag(), b.tag()),
            ),
        }
    }

    /// Multiply two cells of the same tag; wraps on integer overflow.
    pub fn multiply(a: MikuType, b: MikuType) -> (r: Result<MikuType, MikuError>)
        ensures
            r == spec_multiply(a, b),
    {
        match (a, b) {
            (MikuType::U8(x), MikuType::U8(y)) => Ok(MikuType::U8(x.wrapping_mul(y))),
            (MikuType::U16(x), MikuType::U16(y)) => Ok(MikuType::U16(x.wrapping_mul(y))),
            (MikuType::U32(x), MikuType::U32(y)) => Ok(MikuType::U32(x.wrapping_mul(y))),
            (MikuType::U64(x), MikuType::U64(y)) => Ok(MikuType::U64(x.wrapping_mul(y))),
            (MikuType::I8(x), MikuType::I8(y)) => Ok(MikuType::I8(x.wrapping_mul(y))),
            (MikuType::I16(x), MikuType::I16(y)) => Ok(MikuType::I16(x.wrapping_mul(y))),
            (MikuType::I32(x), MikuType::I32(y)) => Ok(MikuType::I32(x.wrapping_mul(y))),
            (MikuType::I64(x), MikuType::I64(y)) => Ok(MikuType::I64(x.wrapping_mul(y))),
            (MikuType::F32(x), MikuType::F32(y)) => Ok(MikuType::F32(f32_mul(x, y))),
            (MikuType::F64(x), MikuType::F64(y)) => Ok(MikuType::F64(f64_mul(x, y))),
            _ => Err(
                MikuError::UndefinedOperationBetweenTypesError(CellOp::Multiply, a.tag(), b.tag()),
            ),
        }
    }

    /// Divide two cells of the same tag. The zero test on the right operand
    /// comes first, across every tag, so dividing by any tag's zero fails
    /// with [`MikuError::DivisionByZeroError`] before tags are matched.
    pub fn divide(a: MikuType, b: MikuType) -> (r: Result<MikuType, MikuError>)
        ensures
            r == spec_divide(a, b),
    {
        if b.is_zero() {
            return Err(MikuError::DivisionByZeroError);
        }
        match (a, b) {
            (MikuType::U8(x), MikuType::U8(y)) => Ok(MikuType::U8(x / y)),
            (MikuType::U16(x), MikuType::U16(y)) => Ok(MikuType::U16(x / y)),
            (MikuType::U32(x), MikuType::U32(y)) => Ok(MikuType::U32(x / y)),
            (MikuType::U64(x), MikuType::U64(y)) => Ok(MikuType::U64(x / y)),
            (MikuType::I8(x), MikuType::I8(y)) => Ok(MikuType::I8(div_i8(x, y))),
            (MikuType::I16(x), MikuType::I16(y)) => Ok(MikuType::I16(div_i16(x, y))),
            (MikuType::I32(x), MikuType::I32(y)) => Ok(MikuType::I32(div_i32(x, y))),
            (MikuType::I64(x), MikuType::I64(y)) => Ok(MikuType::I64(div_i64(x, y))),
            (MikuType::F32(x), MikuType::F32(y)) => Ok(MikuType::F32(f32_div(x, y))),
            (MikuType::F64(x), MikuType::F64(y)) => Ok(MikuType::F64(f64_div(x, y))),
            _ => Err(
                MikuError::UndefinedOperationBetweenTypesError(CellOp::Divide, a.tag(), b.tag()),
            ),
        }
    }

    /// Compare two cells of the same tag for equality; floating-point cells
    /// compare by IEEE semantics, so NaN is unequal even to itself.
    pub fn equals(a: MikuType, b: MikuType) -> (r: Result<bool, MikuError>)
        ensures
            r == spec_equals(a, b),
    {
        match (a, b) {
            (MikuType::U8(x), MikuType::U8(y)) => Ok(x == y),
            (MikuType::U16(x), MikuType::U16(y)) => Ok(x == y),
            (MikuType::U32(x), MikuType::U32(y)) => Ok(x == y),
            (MikuType::U64(x), MikuType::U64(y)) => Ok(x == y),
            (MikuType::I8(x), MikuType::I8(y)) => Ok(x == y),
            (MikuType::I16(x), MikuType::I16(y)) => Ok(x == y),
            (MikuType::I32(x), MikuType::I32(y)) => Ok(x == y),
            (MikuType::I64(x), MikuType::I64(y)) => Ok(x == y),
            (MikuType::F32(x), MikuType::F32(y)) => Ok(f32_eq(x, y)),
            (MikuType::F64(x), MikuType::F64(y)) => Ok(f64_eq(x, y)),
            (MikuType::NULL, MikuType::NULL) => Ok(true),
            _ => Err(
                MikuError::UndefinedOperationBetweenTypesError(CellOp::Equals, a.tag(), b.tag()),
            ),
        }
    }
}

/// Wrapped signed 8-bit division.
fn div_i8(a: i8, b: i8) -> (r: i8)
    requires
        b != 0,
    ensures
        r == spec_div_i8(a, b),
{
    if a == i8::MIN && b == -1 {
        i8::MIN
    } else {
        proof {
            lemma_div_trunc_range(a as int, b as int, i8::MIN as int, i8::MAX as int);
        }
        a.checked_div(b).unwrap()
    }
}

/// Wrapped signed 16-bit division.
fn div_i16(a: i16, b: i16) -> (r: i16)
    requires
        b != 0,
    ensures
        r == spec_div_i16(a, b),
{
    if a == i16::MIN && b == -1 {
        i16::MIN
    } else {
        proof {
            lemma_div_trunc_range(a as int, b as int, i16::MIN as int, i16::MAX as int);
        }
        a.checked_div(b).unwrap()
    }
}

/// Wrapped signed 32-bit division.
fn div_i32(a: i32, b: i32) -> (r: i32)
    requires
        b != 0,
    ensures
        r == spec_div_i32(a, b),
{
    if a == i32::MIN && b == -1 {
        i32::MIN
    } else {
        proof {
            lemma_div_trunc_range(a as int, b as int, i32::MIN as int, i32::MAX as int);
        }
        a.checked_div(b).unwrap()
    }
}

/// Wrapped signed 64-bit division.
fn div_i64(a: i64, b: i64) -> (r: i64)
    requires
        b != 0,
    ensures
        r == spec_div_i64(a, b),
{
    if a == i64::MIN && b == -1 {
        i64::MIN
    } else {
        proof {
            lemma_div_trunc_range(a as int, b as int, i64::MIN as int, i64::MAX as int);
        }
        a.checked_div(b).unwrap()
    }
}

/// The two little-endian bytes of a 16-bit value.
pub open spec fn spec_u16_le(x: u16) -> Seq<u8> {
    seq![(x % 256) as u8, (x / 256) as u8]
}

/// The four little-endian bytes of a 32-bit value.
pub open spec fn spec_u32_le(x: u32) -> Seq<u8> {
    seq![
        (x % 256) as u8,
        (x / 256 % 256) as u8,
        (x / 65536 % 256) as u8,
        (x / 16777216) as u8,
    ]
}

/// The eight little-endian bytes of a 64-bit value.
pub open spec fn spec_u64_le(x: u64) -> Seq<u8> {
    seq![
        (x % 256) as u8,
        (x / 256 % 256) as u8,
        (x / 65536 % 256) as u8,
        (x / 16777216 % 256) as u8,
        (x / 4294967296 % 256) as u8,
        (x / 1099511627776 % 256) as u8,
        (x / 281474976710656 % 256) as u8,
        (x / 72057594037927936) as u8,
    ]
}

/// The 16-bit value with the given little-endian bytes.
pub open spec fn spec_le_u16(b0: u8, b1: u8) -> u16 {
    (b0 + 256 * b1) as u16
}

/// The 32-bit value with the given little-endian bytes.
pub open spec fn spec_le_u32(b0: u8, b1: u8, b2: u8, b3: u8) -> u32 {
    (b0 + 256 * b1 + 65536 * b2 + 16777216 * b3) as u32
}

/// The 64-bit value with the given little-endian bytes.
pub open spec fn spec_le_u64(
    b0: u8,
    b1: u8,
    b2: u8,
    b3: u8,
    b4: u8,
    b5: u8,
    b6: u8,
    b7: u8,
) -> u64 {
    (b0 + 256 * b1 + 65536 * b2 + 16777216 * b3 + 4294967296 * b4 + 1099511627776 * b5
        + 281474976710656 * b6 + 72057594037927936 * b7) as u64
}

/// The two's-complement reading of an unsigned 8-bit value.
pub open spec fn spec_u8_to_i8(x: u8) -> i8 {
    if x <= 127 {
        x as i8
    } else {
        (x - 256) as i8
    }
}

/// The unsigned 8-bit value whose two's-complement reading is `x`.
pub open spec fn spec_i8_to_u8(x: i8) -> u8 {
    if x >= 0 {
        x as u8
    } else {
        (x + 256) as u8
    }
}

/// The two's-complement reading of an unsigned 16-bit value.
pub open spec fn spec_u16_to_i16(x: u16) -> i16 {
    if x <= 32767 {
        x as i16
    } else {
        (x - 65536) as i16
    }
}

/// The unsigned 16-bit value whose two's-complement reading is `x`.
pub open spec fn spec_i16_to_u16(x: i16) -> u16 {
    if x >= 0 {
        x as u16
    } else {
        (x + 65536) as u16
    }
}

/// The two's-complement reading of an unsigned 32-bit value.
pub open spec fn spec_u32_to_i32(x: u32) -> i32 {
    if x <= 2147483647 {
        x as i32
    } else {
        (x - 4294967296) as i32
    }
}

/// The unsigned 32-bit value whose two's-complement reading is `x`.
pub open spec fn spec_i32_to_u32(x: i32) -> u32 {
    if x >= 0 {
        x as u32
    } else {
        (x + 4294967296) as u32
    }
}

/// The two's-complement reading of an unsigned 64-bit value.
pub open spec fn spec_u64_to_i64(x: u64) -> i64 {
    if x <= 9223372036854775807 {
        x as i64
    } else {
        (x - 18446744073709551616) as i64
    }
}

/// The unsigned 64-bit value whose two's-complement reading is `x`.
pub open spec fn spec_i64_to_u64(x: i64) -> u64 {
    if x >= 0 {
        x as u64
    } else {
        (x + 18446744073709551616) as u64
    }
}

/// The byte encoding of a cell: a tag byte followed by the value's
/// little-endian payload, exactly the payload width of the tag. A
/// floating-point payload is its IEEE bit pattern, so the encoding is
/// bit-for-bit faithful for every value, NaN included.
pub open spec fn spec_to_bytes(c: MikuType) -> Seq<u8> {
    match c {
        MikuType::U8(x) => seq![0x00u8, x],
        MikuType::U16(x) => seq![0x01u8] + spec_u16_le(x),
        MikuType::U32(x) => seq![0x02u8] + spec_u32_le(x),
        MikuType::U64(x) => seq![0x03u8] + spec_u64_le(x),
        MikuType::I8(x) => seq![0x04u8, spec_i8_to_u8(x)],
        MikuType::I16(x) => seq![0x05u8] + spec_u16_le(spec_i16_to_u16(x)),
        MikuType::I32(x) => seq![0x06u8] + spec_u32_le(spec_i32_to_u32(x)),
        MikuType::I64(x) => seq![0x07u8] + spec_u64_le(spec_i64_to_u64(x)),
        MikuType::F32(b) => seq![0x08u8] + spec_u32_le(b),
        MikuType::F64(b) => seq![0x09u8] + spec_u64_le(b),
        MikuType::NULL => seq![0x0Au8],
    }
}

/// The cell encoded by a byte sequence: the first byte selects the tag, the
/// rest must be exactly the tag's payload width. An unknown first byte
/// fails with [`MikuError::UnknownTypeError`]; a wrong payload length with
/// [`MikuError::BytesConversionError`].
pub open spec fn spec_from_bytes(s: Seq<u8>) -> Result<MikuType, MikuError> {
    if s.len() == 0 {
        Err(MikuError::BytesConversionError)
    } else if s[0] == 0x00 {
        if s.len() == 2 {
            Ok(MikuType::U8(s[1]))
        } else {
            Err(MikuError::BytesConversionError)
        }
    } else if s[0] == 0x01 {
        if s.len() == 3 {
            Ok(MikuType::U16(spec_le_u16(s[1], s[2])))
        } else {
            Err(MikuError::BytesConversionError)
        }
    } else if s[0] == 0x02 {
        if s.len() == 5 {
            Ok(MikuType::U32(spec_le_u32(s[1], s[2], s[3], s[4])))
        } else {
            Err(MikuError::BytesConversionError)
        }
    } else if s[0] == 0x03 {
        if s.len() == 9 {
            Ok(MikuType::U64(spec_le_u64(s[1], s[2], s[3], s[4], s[5], s[6], s[7], s[8])))
        } else {
            Err(MikuError::BytesConversionError)
        }
    } else if s[0] == 0x04 {
        if s.len() == 2 {
            Ok(MikuType::I8(spec_u8_to_i8(s[1])))
        } else {
            Err(MikuError::BytesConversionError)
        }
    } else if s[0] == 0x05 {
        if s.len() == 3 {
            Ok(MikuType::I16(spec_u16_to_i16(spec_le_u16(s[1], s[2]))))
        } else {
            Err(MikuError::BytesConversionError)
        }
    } else if s[0] == 0x06 {
        if s.len() == 5 {
            Ok(MikuType::I32(spec_u32_to_i32(spec_le_u32(s[1], s[2], s[3], s[4]))))
        } else {
            Err(MikuError::BytesConversionError)
        }
    } else if s[0] == 0x07 {
        if s.len() == 9 {
            Ok(
                MikuType::I64(
                    spec_u64_to_i64(spec_le_u64(s[1], s[2], s[3], s[4], s[5], s[6], s[7], s[8])),
                ),
            )
        } else {
            Err(MikuError::BytesConversionError)
        }
    } else if s[0] == 0x08 {
        if s.len() == 5 {
            Ok(MikuType::F32(spec_le_u32(s[1], s[2], s[3], s[4])))
        } else {
            Err(MikuError::BytesConversionError)
        }
    } else if s[0] == 0x09 {
        if s.len() == 9 {
            Ok(MikuType::F64(spec_le_u64(s[1], s[2], s[3], s[4], s[5], s[6], s[7], s[8])))
        } else {
            Err(MikuError::BytesConversionError)
        }
    } else if s[0] == 0x0A {
        if s.len() == 1 {
            Ok(MikuType::NULL)
        } else {
            Err(MikuError::BytesConversionError)
        }
    } else {
        Err(MikuError::UnknownTypeError(s[0]))
    }
}

/// The length in bytes of an encoded cell whose tag byte is `t` (the tag
/// byte itself included), or [`MikuError::UnknownTypeError`] for a byte
/// that is no tag.
pub open spec fn spec_bytes_length(t: u8) -> Result<usize, MikuError> {
    if t == 0x00 || t == 0x04 {
        Ok(2usize)
    } else if t == 0x01 || t == 0x05 {
        Ok(3usize)
    } else if t == 0x02 || t == 0x06 || t == 0x08 {
        Ok(5usize)
    } else if t == 0x03 || t == 0x07 || t == 0x09 {
        Ok(9usize)
    } else if t == 0x0A {
        Ok(1usize)
    } else {
        Err(MikuError::UnknownTypeError(t))
    }
}

/// Appends the two little-endian bytes of `x`.
pub(crate) fn push_u16_le(v: &mut Vec<u8>, x: u16)
    ensures
        final(v)@ == old(v)@ + spec_u16_le(x),
{
    v.push((x % 256) as u8);
    v.push((x / 256) as u8);
    assert(v@ =~= old(v)@ + spec_u16_le(x));
}

/// Appends the four little-endian bytes of `x`.
pub(crate) fn push_u32_le(v: &mut Vec<u8>, x: u32)
    ensures
        final(v)@ == old(v)@ + spec_u32_le(x),
{
    v.push((x % 256) as u8);
    v.push((x / 256 % 256) as u8);
    v.push((x / 65536 % 256) as u8);
    v.push((x / 16777216) as u8);
    assert(v@ =~= old(v)@ + spec_u32_le(x));
}

/// Appends the eight little-endian bytes of `x`.
pub(crate) fn push_u64_le(v: &mut Vec<u8>, x: u64)
    ensures
        final(v)@ == old(v)@ + spec_u64_le(x),
{
    v.push((x % 256) as u8);
    v.push((x / 256 % 256) as u8);
    v.push((x / 65536 % 256) as u8);
    v.push((x / 16777216 % 256) as u8);
    v.push((x / 4294967296 % 256) as u8);
    v.push((x / 1099511627776 % 256) as u8);
    v.push((x / 281474976710656 % 256) as u8);
    v.push((x / 72057594037927936) as u8);
    assert(v@ =~= old(v)@ + spec_u64_le(x));
}

impl MikuType {
    /// Encodes this cell as a tag byte followed by the little-endian
    /// payload of the tag's exact width.
    pub fn to_bytes(&self) -> (r: Vec<u8>)
        ensures
            r@ == spec_to_bytes(*self),
    {
        let mut bytes: Vec<u8> = Vec::new();
        match *self {
            MikuType::U8(x) => {
                bytes.push(0x00);
                bytes.push(x);
            },
            MikuType::U16(x) => {
                bytes.push(0x01);
                push_u16_le(&mut bytes, x);
            },
            MikuType::U32(x) => {
                bytes.push(0x02);
                push_u32_le(&mut bytes, x);
            },
            MikuType::U64(x) => {
                bytes.push(0x03);
                push_u64_le(&mut bytes, x);
            },
            MikuType::I8(x) => {
                bytes.push(0x04);
                if x >= 0 {
                    bytes.push(x as u8);
                } else {
                    bytes.push((x as i16 + 256) as u8);
                }
            },
            MikuType::I16(x) => {
                bytes.push(0x05);
                if x >= 0 {
                    push_u16_le(&mut bytes, x as u16);
                } else {
                    push_u16_le(&mut bytes, (x as i32 + 65536) as u16);
                }
            },
            MikuType::I32(x) => {
                bytes.push(0x06);
                if x >= 0 {
                    push_u32_le(&mut bytes, x as u32);
                } else {
                    push_u32_le(&mut bytes, (x as i64 + 4294967296) as u32);
                }
            },
            MikuType::I64(x) => {
                bytes.push(0x07);
                if x >= 0 {
                    push_u64_le(&mut bytes, x as u64);
                } else {
                    push_u64_le(&mut bytes, (x as i128 + 18446744073709551616) as u64);
                }
            },
            MikuType::F32(b) => {
                bytes.push(0x08);
                push_u32_le(&mut bytes, b);
            },
            MikuType::F64(b) => {
                bytes.push(0x09);
                push_u64_le(&mut bytes, b);
            },
            MikuType::NULL => {
                bytes.push(0x0A);
            },
        }
        assert(bytes@ =~= spec_to_bytes(*self));
        bytes
    }

    /// Decodes a cell from a tag byte followed by a little-endian payload
    /// of the tag's exact width.
    pub fn from_bytes(bytes: &[u8]) -> (r: Result<MikuType, MikuError>)
        ensures
            r == spec_from_bytes(bytes@),
    {
        if bytes.len() == 0 {
            return Err(MikuError::BytesConversionError);
        }
        let t = bytes[0];
        match t {
            0x00 => {
                if bytes.len() == 2 {
                    Ok(MikuType::U8(bytes[1]))
                } else {
                    Err(MikuError::BytesConversionError)
                }
            },
            0x01 => {
                if bytes.len() == 3 {
                    Ok(MikuType::U16(read_u16_le(bytes[1], bytes[2])))
                } else {
                    Err(MikuError::BytesConversionError)
                }
            },
            0x02 => {
                if bytes.len() == 5 {
                    Ok(MikuType::U32(read_u32_le(bytes[1], bytes[2], bytes[3], bytes[4])))
                } else {
                    Err(MikuError::BytesConversionError)
                }
            },
            0x03 => {
                if bytes.len() == 9 {
                    Ok(
                        MikuType::U64(
                            read_u64_le(
                                bytes[1],
                                bytes[2],
                                bytes[3],
                                bytes[4],
                                bytes[5],
                                bytes[6],
                                bytes[7],
                                bytes[8],
                            ),
                        ),
                    )
                } else {
                    Err(MikuError::BytesConversionError)
                }
            },
            0x04 => {
                if bytes.len() == 2 {
                    let x = bytes[1];
                    if x <= 127 {
                        Ok(MikuType::I8(x as i8))
                    } else {
                        Ok(MikuType::I8((x as i16 - 256) as i8))
                    }
                } else {
                    Err(MikuError::BytesConversionError)
                }
            },
            0x05 => {
                if bytes.len() == 3 {
                    let x = read_u16_le(bytes[1], bytes[2]);
                    if x <= 32767 {
                        Ok(MikuType::I16(x as i16))
                    } else {
                        Ok(MikuType::I16((x as i32 - 65536) as i16))
                    }
                } else {
                    Err(MikuError::BytesConversionError)
                }
            },
            0x06 => {
                if bytes.len() == 5 {
                    let x = read_u32_le(bytes[1], bytes[2], bytes[3], bytes[4]);
                    if x <= 2147483647 {
                        Ok(MikuType::I32(x as i32))
                    } else {
                        Ok(MikuType::I32((x as i64 - 4294967296) as i32))
                    }
                } else {
                    Err(MikuError::BytesConversionError)
                }
            },
            0x07 => {
                if bytes.len() == 9 {
                    let x = read_u64_le(
                        bytes[1],
                        bytes[2],
                        bytes[3],
                        bytes[4],
                        bytes[5],
                        bytes[6],
                        bytes[7],
                        bytes[8],
                    );
                    if x <= 9223372036854775807 {
                        Ok(MikuType::I64(x as i64))
                    } else {
                        Ok(MikuType::I64((x as i128 - 18446744073709551616) as i64))
                    }
                } else {
                    Err(MikuError::BytesConversionError)
                }
            },
            0x08 => {
                if bytes.len() == 5 {
                    Ok(MikuType::F32(read_u32_le(bytes[1], bytes[2], bytes[3], bytes[4])))
                } else {
                    Err(MikuError::BytesConversionError)
                }
            },
            0x09 => {
                if bytes.len() == 9 {
                    Ok(
                        MikuType::F64(
                            read_u64_le(
                                bytes[1],
                                bytes[2],
                                bytes[3],
                                bytes[4],
                                bytes[5],
                                bytes[6],
                                bytes[7],
                                bytes[8],
                            ),
                        ),
                    )
                } else {
                    Err(MikuError::BytesConversionError)
                }
            },
            0x0A => {
                if bytes.len() == 1 {
                    Ok(MikuType::NULL)
                } else {
                    Err(MikuError::BytesConversionError)
                }
            },
            _ => Err(MikuError::UnknownTypeError(t)),
        }
    }

    /// The length in bytes of an encoded cell whose tag byte is
    /// `tag_byte`, the tag byte itself included.
    pub fn get_bytes_length(tag_byte: u8) -> (r: Result<usize, MikuError>)
        ensures
            r == spec_bytes_length(tag_byte),
    {
        match tag_byte {
            0x00 | 0x04 => Ok(2),
            0x01 | 0x05 => Ok(3),
            0x02 | 0x06 | 0x08 => Ok(5),
            0x03 | 0x07 | 0x09 => Ok(9),
            0x0A => Ok(1),
            _ => Err(MikuError::UnknownTypeError(tag_byte)),
        }
    }
}

/// The 16-bit value with the given little-endian bytes.
pub(crate) fn read_u16_le(b0: u8, b1: u8) -> (r: u16)
    ensures
        r == spec_le_u16(b0, b1),
{
    b0 as u16 + 256 * (b1 as u16)
}

/// The 32-bit value with the given little-endian bytes.
pub(crate) fn read_u32_le(b0: u8, b1: u8, b2: u8, b3: u8) -> (r: u32)
    ensures
        r == spec_le_u32(b0, b1, b2, b3),
{
    b0 as u32 + 256 * (b1 as u32) + 65536 * (b2 as u32) + 16777216 * (b3 as u32)
}

/// The 64-bit value with the given little-endian bytes.
pub(crate) fn read_u64_le(b0: u8, b1: u8, b2: u8, b3: u8, b4: u8, b5: u8, b6: u8, b7: u8) -> (r: u64)
    ensures
        r == spec_le_u64(b0, b1, b2, b3, b4, b5, b6, b7),
{
    b0 as u64 + 256 * (b1 as u64) + 65536 * (b2 as u64) + 16777216 * (b3 as u64) + 4294967296 * (
    b4 as u64) + 1099511627776 * (b5 as u64) + 281474976710656 * (b6 as u64)
        + 72057594037927936 * (b7 as u64)
}

/// A 16-bit value is recovered from its own little-endian bytes.
pub(crate) proof fn lemma_u16_le_round(x: u16)
    ensures
        spec_le_u16((x % 256) as u8, (x / 256) as u8) == x,
{
}

/// A 32-bit value is recovered from its own little-endian bytes.
pub(crate) proof fn lemma_u32_le_round(x: u32)
    ensures
        spec_le_u32(
            (x % 256) as u8,
            (x / 256 % 256) as u8,
            (x / 65536 % 256) as u8,
            (x / 16777216) as u8,
        ) == x,
{
    vstd::arithmetic::div_mod::lemma_div_denominator(x as int, 256, 256);
    vstd::arithmetic::div_mod::lemma_div_denominator(x as int, 65536, 256);
    vstd::arithmetic::div_mod::lemma_div_is_ordered(x as int, 0xFFFF_FFFF, 16777216);
}

/// A 64-bit value is recovered from its own little-endian bytes.
pub(crate) proof fn lemma_u64_le_round(x: u64)
    ensures
        spec_le_u64(
            (x % 256) as u8,
            (x / 256 % 256) as u8,
            (x / 65536 % 256) as u8,
            (x / 16777216 % 256) as u8,
            (x / 4294967296 % 256) as u8,
            (x / 1099511627776 % 256) as u8,
            (x / 281474976710656 % 256) as u8,
            (x / 72057594037927936) as u8,
        ) == x,
{
    vstd::arithmetic::div_mod::lemma_div_denominator(x as int, 256, 256);
    vstd::arithmetic::div_mod::lemma_div_denominator(x as int, 65536, 256);
    vstd::arithmetic::div_mod::lemma_div_denominator(x as int, 16777216, 256);
    vstd::arithmetic::div_mod::lemma_div_denominator(x as int, 4294967296, 256);
    vstd::arithmetic::div_mod::lemma_div_denominator(x as int, 1099511627776, 256);
    vstd::arithmetic::div_mod::lemma_div_denominator(x as int, 281474976710656, 256);
    vstd::arithmetic::div_mod::lemma_div_is_ordered(
        x as int,
        0xFFFF_FFFF_FFFF_FFFF,
        72057594037927936,
    );
}

/// The first byte of a cell's encoding is a tag byte that announces the
/// encoding's exact length.
pub proof fn lemma_to_bytes_length(c: MikuType)
    ensures
        1 <= spec_to_bytes(c).len() <= 9,
        spec_bytes_length(spec_to_bytes(c)[0]) == Ok::<usize, MikuError>(
            spec_to_bytes(c).len() as usize,
        ),
{
}

/// Every cell decodes back from its own encoding: the byte round trip is
/// the identity, bit-for-bit, for every tag and value — NaN and infinity
/// bit patterns included, since a floating-point cell is its bit pattern.
pub proof fn lemma_cell_bytes_round_trip(c: MikuType)
    ensures
        spec_from_bytes(spec_to_bytes(c)) == Ok::<MikuType, MikuError>(c),
{
    match c {
        MikuType::U8(x) => {},
        MikuType::U16(x) => {
            lemma_u16_le_round(x);
        },
        MikuType::U32(x) => {
            lemma_u32_le_round(x);
        },
        MikuType::U64(x) => {
            lemma_u64_le_round(x);
        },
        MikuType::I8(x) => {},
        MikuType::I16(x) => {
            lemma_u16_le_round(spec_i16_to_u16(x));
        },
        MikuType::I32(x) => {
            lemma_u32_le_round(spec_i32_to_u32(x));
        },
        MikuType::I64(x) => {
            lemma_u64_le_round(spec_i64_to_u64(x));
        },
        MikuType::F32(b) => {
            lemma_u32_le_round(b);
        },
        MikuType::F64(b) => {
            lemma_u64_le_round(b);
        },
        MikuType::NULL => {},
    }
}

/// Type safety: between two differently tagged cells, addition,
/// subtraction, multiplication and equality always fail with a tag
/// mismatch naming the operation and both tags — nothing is ever widened
/// or coerced. Division fails the same way, unless the right operand is
/// some tag's zero, in which case the earlier zero test wins (see
/// [`lemma_division_by_zero`]): for example, dividing `U8(5)` by `U16(0)`
/// reports division by zero, not a tag mismatch.
pub proof fn lemma_type_safety(a: MikuType, b: MikuType)
    requires
        tag_of(a) != tag_of(b),
    ensures
        spec_add(a, b) == Err::<MikuType, MikuError>(
            MikuError::UndefinedOperationBetweenTypesError(CellOp::Add, tag_of(a), tag_of(b)),
        ),
        spec_subtract(a, b) == Err::<MikuType, MikuError>(
            MikuError::UndefinedOperationBetweenTypesError(CellOp::Subtract, tag_of(a), tag_of(b)),
        ),
        spec_multiply(a, b) == Err::<MikuType, MikuError>(
            MikuError::UndefinedOperationBetweenTypesError(CellOp::Multiply, tag_of(a), tag_of(b)),
        ),
        spec_equals(a, b) == Err::<bool, MikuError>(
            MikuError::UndefinedOperationBetweenTypesError(CellOp::Equals, tag_of(a), tag_of(b)),
        ),
        !spec_is_zero(b) ==> spec_divide(a, b) == Err::<MikuType, MikuError>(
            MikuError::UndefinedOperationBetweenTypesError(CellOp::Divide, tag_of(a), tag_of(b)),
        ),
{
}

/// Division by zero: dividing any cell by a cell that is the zero of its
/// numeric tag fails with [`MikuError::DivisionByZeroError`]. The zero
/// test comes before tag matching, so this holds even when the tags
/// differ.
pub proof fn lemma_division_by_zero(a: MikuType, b: MikuType)
    requires
        spec_is_zero(b),
    ensures
        spec_divide(a, b) == Err::<MikuType, MikuError>(MikuError::DivisionByZeroError),
{
}

/// The decimal value of a sequence of digit characters.
pub open spec fn spec_dec_val(s: Seq<char>) -> int
    decreases s.len(),
{
    if s.len() == 0 {
        0
    } else {
        spec_dec_val(s.drop_last()) * 10 + (s.last() as int - 48)
    }
}

/// Whether a character sequence is one or more decimal digits.
pub open spec fn spec_is_digits(s: Seq<char>) -> bool {
    s.len() > 0 && forall|i: int| 0 <= i < s.len() ==> 48 <= #[trigger] s[i] as int <= 57
}

/// Whether a character sequence is a decimal numeral with an optional
/// leading minus sign.
pub open spec fn spec_signed_wf(s: Seq<char>) -> bool {
    if s.len() > 0 && s[0] == '-' {
        spec_is_digits(s.skip(1))
    } else {
        spec_is_digits(s)
    }
}

/// The signed value of a decimal numeral with an optional leading minus.
pub open spec fn spec_signed_val(s: Seq<char>) -> int {
    if s.len() > 0 && s[0] == '-' {
        -spec_dec_val(s.skip(1))
    } else {
        spec_dec_val(s)
    }
}

/// The value of a digit sequence is never negative.
pub(crate) proof fn lemma_dec_val_nonneg(s: Seq<char>)
    requires
        forall|i: int| 0 <= i < s.len() ==> 48 <= #[trigger] s[i] as int <= 57,
    ensures
        spec_dec_val(s) >= 0,
    decreases s.len(),
{
    if s.len() > 0 {
        lemma_dec_val_nonneg(s.drop_last());
    }
}

/// The value of any digit-sequence prefix is at most the whole sequence's
/// value.
proof fn lemma_dec_val_prefix(s: Seq<char>, j: int)
    requires
        forall|i: int| 0 <= i < s.len() ==> 48 <= #[trigger] s[i] as int <= 57,
        0 <= j <= s.len(),
    ensures
        spec_dec_val(s.take(j)) <= spec_dec_val(s),
    decreases s.len() - j,
{
    if j == s.len() {
        assert(s.take(j) =~= s);
    } else {
        assert(s.take(j + 1).drop_last() =~= s.take(j));
        assert(s.take(j + 1).last() == s[j]);
        lemma_dec_val_nonneg(s.take(j));
        lemma_dec_val_prefix(s, j + 1);
    }
}

/// Reads the decimal value of the digit characters from position `from` to
/// the end of the string.
pub(crate) fn parse_dec(s: &str, from: usize) -> (r: u64)
    requires
        from < s@.len(),
        spec_is_digits(s@.skip(from as int)),
        spec_dec_val(s@.skip(from as int)) <= u64::MAX,
    ensures
        r as int == spec_dec_val(s@.skip(from as int)),
{
    let ghost d = s@.skip(from as int);
    let n = s.unicode_len();
    let mut i: usize = from;
    let mut acc: u64 = 0;
    proof {
        assert(d.take(0) =~= Seq::<char>::empty());
    }
    while i < n
        invariant
            from <= i <= n,
            n == s@.len(),
            d == s@.skip(from as int),
            spec_is_digits(d),
            spec_dec_val(d) <= u64::MAX,
            acc as int == spec_dec_val(d.take(i - from)),
        decreases n - i,
    {
        let c = s.get_char(i);
        proof {
            assert(d[i - from] == s@[i as int]);
            assert(d.take(i - from + 1).drop_last() =~= d.take(i - from));
            assert(d.take(i - from + 1).last() == d[i - from]);
            lemma_dec_val_prefix(d, i - from + 1);
            lemma_dec_val_nonneg(d.take(i - from + 1));
        }
        let digit = (c as u32) - 48;
        acc = acc * 10 + (digit as u64);
        i = i + 1;
    }
    proof {
        assert(d.take(n - from) =~= d);
    }
    acc
}

/// Reads a signed decimal numeral: an optional leading minus sign, then
/// digits.
pub(crate) fn parse_signed(s: &str) -> (r: i64)
    requires
        s@.len() > 0,
        spec_signed_wf(s@),
        i64::MIN <= spec_signed_val(s@) <= i64::MAX,
    ensures
        r as int == spec_signed_val(s@),
{
    let n = s.unicode_len();
    let first = s.get_char(0);
    if first == '-' {
        proof {
            lemma_dec_val_nonneg(s@.skip(1));
        }
        let mag = parse_dec(s, 1);
        (-(mag as i128)) as i64
    } else {
        proof {
            assert(s@.skip(0) =~= s@);
            lemma_dec_val_nonneg(s@);
        }
        let v = parse_dec(s, 0);
        v as i64
    }
}

/// Whether a string names exactly the two given characters.
pub(crate) fn is_str2(s: &str, a: char, b: char) -> (r: bool)
    ensures
        r == (s@ =~= seq![a, b]),
{
    let n = s.unicode_len();
    if n != 2 {
        return false;
    }
    let r = s.get_char(0) == a && s.get_char(1) == b;
    proof {
        if r {
            assert(s@ =~= seq![a, b]);
        }
    }
    r
}

/// Whether a string names exactly the three given characters.
pub(crate) fn is_str3(s: &str, a: char, b: char, c: char) -> (r: bool)
    ensures
        r == (s@ =~= seq![a, b, c]),
{
    let n = s.unicode_len();
    if n != 3 {
        return false;
    }
    let r = s.get_char(0) == a && s.get_char(1) == b && s.get_char(2) == c;
    proof {
        if r {
            assert(s@ =~= seq![a, b, c]);
        }
    }
    r
}

/// Whether a type name and a numeral form a well-formed textual cell: one
/// of the eight integer type names, and a numeral in that type's range
/// (unsigned types take no minus sign).
pub open spec fn spec_from_strs_wf(ty: Seq<char>, num: Seq<char>) -> bool {
    if ty == seq!['u', '8'] {
        spec_is_digits(num) && spec_dec_val(num) <= u8::MAX
    } else if ty == seq!['u', '1', '6'] {
        spec_is_digits(num) && spec_dec_val(num) <= u16::MAX
    } else if ty == seq!['u', '3', '2'] {
        spec_is_digits(num) && spec_dec_val(num) <= u32::MAX
    } else if ty == seq!['u', '6', '4'] {
        spec_is_digits(num) && spec_dec_val(num) <= u64::MAX
    } else if ty == seq!['i', '8'] {
        spec_signed_wf(num) && i8::MIN <= spec_signed_val(num) <= i8::MAX
    } else if ty == seq!['i', '1', '6'] {
        spec_signed_wf(num) && i16::MIN <= spec_signed_val(num) <= i16::MAX
    } else if ty == seq!['i', '3', '2'] {
        spec_signed_wf(num) && i32::MIN <= spec_signed_val(num) <= i32::MAX
    } else if ty == seq!['i', '6', '4'] {
        spec_signed_wf(num) && i64::MIN <= spec_signed_val(num) <= i64::MAX
    } else {
        false
    }
}

/// The cell named by a well-formed type name and numeral.
pub open spec fn spec_from_strs_cell(ty: Seq<char>, num: Seq<char>) -> MikuType {
    if ty == seq!['u', '8'] {
        MikuType::U8(spec_dec_val(num) as u8)
    } else if ty == seq!['u', '1', '6'] {
        MikuType::U16(spec_dec_val(num) as u16)
    } else if ty == seq!['u', '3', '2'] {
        MikuType::U32(spec_dec_val(num) as u32)
    } else if ty == seq!['u', '6', '4'] {
        MikuType::U64(spec_dec_val(num) as u64)
    } else if ty == seq!['i', '8'] {
        MikuType::I8(spec_signed_val(num) as i8)
    } else if ty == seq!['i', '1', '6'] {
        MikuType::I16(spec_signed_val(num) as i16)
    } else if ty == seq!['i', '3', '2'] {
        MikuType::I32(spec_signed_val(num) as i32)
    } else {
        MikuType::I64(spec_signed_val(num) as i64)
    }
}

impl MikuType {
    /// Reads a cell from a pair of strings: a type name (`u8` through
    /// `i64`) and a decimal numeral in that type's range.
    pub fn from_strs(strs: &[&str]) -> (r: MikuType)
        requires
            strs@.len() == 2,
            spec_from_strs_wf(strs@[0]@, strs@[1]@),
        ensures
            r == spec_from_strs_cell(strs@[0]@, strs@[1]@),
    {
        let ty = strs[0];
        let num = strs[1];
        proof {
            assert(num@.skip(0) =~= num@);
        }
        if is_str2(ty, 'u', '8') {
            proof {
                lemma_dec_val_nonneg(num@);
            }
            MikuType::U8(parse_dec(num, 0) as u8)
        } else if is_str3(ty, 'u', '1', '6') {
            proof {
                lemma_dec_val_nonneg(num@);
            }
            MikuType::U16(parse_dec(num, 0) as u16)
        } else if is_str3(ty, 'u', '3', '2') {
            proof {
                lemma_dec_val_nonneg(num@);
            }
            MikuType::U32(parse_dec(num, 0) as u32)
        } else if is_str3(ty, 'u', '6', '4') {
            MikuType::U64(parse_dec(num, 0))
        } else if is_str2(ty, 'i', '8') {
            MikuType::I8(parse_signed(num) as i8)
        } else if is_str3(ty, 'i', '1', '6') {
            MikuType::I16(parse_signed(num) as i16)
        } else if is_str3(ty, 'i', '3', '2') {
            MikuType::I32(parse_signed(num) as i32)
        } else {
            MikuType::I64(parse_signed(num))
        }
    }
}

} // verus!
