//! Predicates on IEEE-754 single-precision values held as their bit patterns.
//!
//! Asset records keep every floating-point field as the exact `f32` bit pattern that the file
//! stores. The validation rules of the format only compare such values against constants and
//! against each other when both are finite and not negative, where the order of the values
//! coincides with the order of their bit patterns (negative zero compares equal to zero).

use vstd::prelude::*;

verus! {

/// Bits of the exponent field.
pub const F32_EXPONENT_MASK: u32 = 0x7f80_0000;
/// Bit pattern of `1.0`.
pub const F32_ONE_BITS: u32 = 0x3f80_0000;
/// Bit pattern of `-0.0`.
pub const F32_NEGATIVE_ZERO_BITS: u32 = 0x8000_0000;
/// Bit pattern of negative infinity.
pub const F32_NEGATIVE_INFINITY_BITS: u32 = 0xff80_0000;

/// The value is neither infinite nor NaN (its exponent field is not all ones).
pub open spec fn f32_is_finite(bits: u32) -> bool {
    bits & F32_EXPONENT_MASK != F32_EXPONENT_MASK
}

/// The value compares below zero: a negative non-zero value or negative infinity, never NaN.
pub open spec fn f32_lt_zero(bits: u32) -> bool {
    F32_NEGATIVE_ZERO_BITS < bits && bits <= F32_NEGATIVE_INFINITY_BITS
}

/// A key whose integer order is the numeric order of finite values that are not below zero.
pub open spec fn f32_order_key(bits: u32) -> u32 {
    if bits == F32_NEGATIVE_ZERO_BITS {
        0
    } else {
        bits
    }
}

/// Finite and in the closed interval `[0, 1]`.
pub open spec fn f32_in_closed_unit(bits: u32) -> bool {
    bits <= F32_ONE_BITS || bits == F32_NEGATIVE_ZERO_BITS
}

/// Finite and in the open interval `(0, 1)`.
pub open spec fn f32_in_open_unit(bits: u32) -> bool {
    0 < bits && bits < F32_ONE_BITS
}

/// Finite and not above one.
pub open spec fn f32_le_one(bits: u32) -> bool {
    f32_is_finite(bits) && (bits <= F32_ONE_BITS || bits >= F32_NEGATIVE_ZERO_BITS)
}

pub fn is_finite(bits: u32) -> (r: bool)
    ensures
        r == f32_is_finite(bits),
{
    bits & F32_EXPONENT_MASK != F32_EXPONENT_MASK
}

pub fn lt_zero(bits: u32) -> (r: bool)
    ensures
        r == f32_lt_zero(bits),
{
    F32_NEGATIVE_ZERO_BITS < bits && bits <= F32_NEGATIVE_INFINITY_BITS
}

pub fn order_key(bits: u32) -> (r: u32)
    ensures
        r == f32_order_key(bits),
{
    if bits == F32_NEGATIVE_ZERO_BITS {
        0
    } else {
        bits
    }
}

} // verus!
