//! IEEE-754 binary32 values held as their bit patterns.
use vstd::prelude::*;

verus! {

/// The magnitude bits (all but the sign) of a binary32 bit pattern.
pub open spec fn f32_magnitude(bits: u32) -> int {
    (bits % 0x8000_0000) as int
}

/// Whether the sign bit of a binary32 bit pattern is set.
pub open spec fn f32_sign_set(bits: u32) -> bool {
    bits >= 0x8000_0000
}

/// A binary32 bit pattern is a NaN when its exponent bits are all set and its
/// mantissa is not zero, that is when its magnitude exceeds that of infinity.
pub open spec fn f32_is_nan(bits: u32) -> bool {
    f32_magnitude(bits) > 0x7f80_0000
}

/// For every binary32 value that is not a NaN, the value order is the order of
/// the signed magnitude of its bit pattern (both zeros map to 0).
pub open spec fn f32_order_key(bits: u32) -> int {
    if f32_sign_set(bits) {
        -f32_magnitude(bits)
    } else {
        f32_magnitude(bits)
    }
}

/// IEEE-754 `<` on binary32 bit patterns: false whenever a NaN takes part.
pub open spec fn f32_lt(a: u32, b: u32) -> bool {
    !f32_is_nan(a) && !f32_is_nan(b) && f32_order_key(a) < f32_order_key(b)
}

/// `a < b` for the binary32 values whose bit patterns are `a` and `b`.
pub fn f32_bits_lt(a: u32, b: u32) -> (r: bool)
    ensures
        r == f32_lt(a, b),
{
    let ma: u32 = a % 0x8000_0000;
    let mb: u32 = b % 0x8000_0000;
    if ma > 0x7f80_0000 || mb > 0x7f80_0000 {
        return false;
    }
    let ka: i64 = if a >= 0x8000_0000 { -(ma as i64) } else { ma as i64 };
    let kb: i64 = if b >= 0x8000_0000 { -(mb as i64) } else { mb as i64 };
    ka < kb
}

/// `a > b` for the binary32 values whose bit patterns are `a` and `b`.
pub fn f32_bits_gt(a: u32, b: u32) -> (r: bool)
    ensures
        r == f32_lt(b, a),
{
    f32_bits_lt(b, a)
}

/// `<` on binary32 values is transitive.
pub proof fn lemma_f32_lt_transitive(a: u32, b: u32, c: u32)
    requires
        f32_lt(a, b),
        f32_lt(b, c),
    ensures
        f32_lt(a, c),
{
}

/// `<` on binary32 values is irreflexive and asymmetric.
pub proof fn lemma_f32_lt_asymmetric(a: u32, b: u32)
    ensures
        !f32_lt(a, a),
        f32_lt(a, b) ==> !f32_lt(b, a),
{
}

/// `<` on binary32 bit patterns is the order of the real values they stand
/// for: non-negative values (+0 up to +infinity) grow with their bit patterns,
/// negative ones (-0 down to -infinity) shrink as theirs grow, every negative
/// non-zero value is below every non-negative one, -0 compares as +0, and a NaN
/// is neither below nor above anything.
pub proof fn lemma_f32_lt_is_value_order(a: u32, b: u32)
    ensures
        a < b <= 0x7f80_0000 ==> f32_lt(a, b),
        0x8000_0000 <= b < a <= 0xff80_0000 ==> f32_lt(a, b),
        0x8000_0000 < a <= 0xff80_0000 && b <= 0x7f80_0000 ==> f32_lt(a, b),
        f32_lt(0x8000_0000, b) == f32_lt(0, b),
        f32_lt(b, 0x8000_0000) == f32_lt(b, 0),
        (0x7f80_0000 < a < 0x8000_0000 || 0xff80_0000 < a) ==> !f32_lt(a, b) && !f32_lt(b, a),
{
}

/// The value of four bytes read as a little-endian `u32`.
pub open spec fn le_u32(b0: u8, b1: u8, b2: u8, b3: u8) -> int {
    b0 + 256 * b1 + 65536 * b2 + 16777216 * b3
}

/// `u32::from_le_bytes([b0, b1, b2, b3])`.
pub fn u32_from_le(b0: u8, b1: u8, b2: u8, b3: u8) -> (r: u32)
    ensures
        r == le_u32(b0, b1, b2, b3),
{
    (b0 as u32) + 256 * (b1 as u32) + 65536 * (b2 as u32) + 16777216 * (b3 as u32)
}

} // verus!
