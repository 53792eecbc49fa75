//! Comparisons of IEEE-754 values held by their bit patterns.
//!
//! The paint-command model stores colour alphas, stroke widths and blur deviations as the bit
//! patterns of the floats that the caller supplied (`f32::to_bits` / `f64::to_bits`), so the
//! decisions made on them are exact integer logic.

use vstd::prelude::*;

verus! {

/// Sign bit of a binary32 pattern.
pub open spec fn f32_sign_set(bits: u32) -> bool {
    bits >= 0x8000_0000
}

/// Magnitude (all bits but the sign) of a binary32 pattern.
pub open spec fn f32_magnitude(bits: u32) -> int {
    (bits as int) % 0x8000_0000
}

/// Whether the binary32 value with bit pattern `bits` is a NaN.
pub open spec fn f32_is_nan(bits: u32) -> bool {
    f32_magnitude(bits) > 0x7f80_0000
}

/// Whether the binary32 value with bit pattern `bits` compares `<= 0.0`: a zero of either sign,
/// or a negative number (infinity included) that is not NaN.
pub open spec fn f32_le_zero(bits: u32) -> bool {
    f32_magnitude(bits) == 0 || (f32_sign_set(bits) && !f32_is_nan(bits))
}

/// Whether the binary32 value with bit pattern `bits` compares `== 1.0`.
pub open spec fn f32_eq_one(bits: u32) -> bool {
    bits == 0x3f80_0000
}

/// Sign bit of a binary64 pattern.
pub open spec fn f64_sign_set(bits: u64) -> bool {
    bits >= 0x8000_0000_0000_0000
}

/// Magnitude (all bits but the sign) of a binary64 pattern.
pub open spec fn f64_magnitude(bits: u64) -> int {
    (bits as int) % 0x8000_0000_0000_0000
}

/// Whether the binary64 value with bit pattern `bits` is a NaN.
pub open spec fn f64_is_nan(bits: u64) -> bool {
    f64_magnitude(bits) > 0x7ff0_0000_0000_0000
}

/// Whether the binary64 value with bit pattern `bits` compares `<= 0.0`.
pub open spec fn f64_le_zero(bits: u64) -> bool {
    f64_magnitude(bits) == 0 || (f64_sign_set(bits) && !f64_is_nan(bits))
}

/// Whether the binary64 value with bit pattern `bits` compares `== 0.0`.
pub open spec fn f64_eq_zero(bits: u64) -> bool {
    f64_magnitude(bits) == 0
}

/// Whether the binary64 values with bit patterns `a` and `b` compare equal: neither is NaN and
/// either the patterns agree or both are zeros.
pub open spec fn f64_eq(a: u64, b: u64) -> bool {
    !f64_is_nan(a) && !f64_is_nan(b) && (a == b || (f64_eq_zero(a) && f64_eq_zero(b)))
}

/// `x <= 0.0` for the binary32 value with bit pattern `bits`.
pub fn f32_bits_le_zero(bits: u32) -> (r: bool)
    ensures
        r == f32_le_zero(bits),
{
    let magnitude: u32 = bits % 0x8000_0000;
    magnitude == 0 || (bits >= 0x8000_0000 && magnitude <= 0x7f80_0000)
}

/// `x <= 0.0` for the binary64 value with bit pattern `bits`.
pub fn f64_bits_le_zero(bits: u64) -> (r: bool)
    ensures
        r == f64_le_zero(bits),
{
    let magnitude: u64 = bits % 0x8000_0000_0000_0000;
    magnitude == 0 || (bits >= 0x8000_0000_0000_0000 && magnitude <= 0x7ff0_0000_0000_0000)
}

/// `x == 0.0` for the binary64 value with bit pattern `bits`.
pub fn f64_bits_eq_zero(bits: u64) -> (r: bool)
    ensures
        r == f64_eq_zero(bits),
{
    bits % 0x8000_0000_0000_0000 == 0
}

/// `a == b` for the binary64 values with bit patterns `a` and `b`.
pub fn f64_bits_eq(a: u64, b: u64) -> (r: bool)
    ensures
        r == f64_eq(a, b),
{
    let ma: u64 = a % 0x8000_0000_0000_0000;
    let mb: u64 = b % 0x8000_0000_0000_0000;
    ma <= 0x7ff0_0000_0000_0000 && mb <= 0x7ff0_0000_0000_0000 && (a == b || (ma == 0 && mb == 0))
}

} // verus!
