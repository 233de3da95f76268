//! 64-bit IEEE 754 values as bit patterns.
//!
//! The stylesheet language works with 64-bit binary floating-point numbers:
//! numeric property values, numeric tag comparisons and the z-index draw
//! order.  Inside this library every such number is carried as its IEEE 754
//! bit pattern (a `u64`), and the orderings the cascade needs are defined
//! directly over those bits:
//!
//! - [`lt_bits`] and [`le_bits`] are the IEEE 754 comparisons: `NaN` compares
//!   with nothing, the two zeros are equal, negative values sort below
//!   positive ones.
//! - [`draw_order_key`] is a strict total order for sorting: it agrees with
//!   the IEEE ordering on non-`NaN` values (with the two zeros collapsed) and
//!   places each `NaN` deterministically by its bit pattern, negative-sign
//!   `NaN`s below every number and positive-sign `NaN`s above.

use vstd::prelude::*;

verus! {

/// Sign bit of a 64-bit IEEE 754 value.
pub const SIGN_BIT: u64 = 0x8000_0000_0000_0000;

/// Exponent field of a 64-bit IEEE 754 value.
pub const EXPONENT_MASK: u64 = 0x7FF0_0000_0000_0000;

/// Mantissa field of a 64-bit IEEE 754 value.
pub const MANTISSA_MASK: u64 = 0x000F_FFFF_FFFF_FFFF;

/// Bit pattern of the value one, the default z-index of a closed feature.
pub const Z_INDEX_BITS_CLOSED: u64 = 0x3FF0_0000_0000_0000;

/// Bit pattern of the value three, the default z-index of an open feature.
pub const Z_INDEX_BITS_OPEN: u64 = 0x4008_0000_0000_0000;

/// A bit pattern denotes `NaN` when the exponent field is all ones and the
/// mantissa field is not zero.
pub open spec fn spec_is_nan(bits: u64) -> bool {
    bits & EXPONENT_MASK == EXPONENT_MASK && bits & MANTISSA_MASK != 0
}

/// Maps a bit pattern to a key whose unsigned order is the IEEE 754 total
/// order: flip every bit of a negative value, flip only the sign bit of a
/// positive one.
pub open spec fn spec_total_order_key(bits: u64) -> u64 {
    if bits & SIGN_BIT != 0 {
        bits ^ 0xFFFF_FFFF_FFFF_FFFF
    } else {
        bits ^ SIGN_BIT
    }
}

/// Collapses the negative zero onto the positive one, the only pair of
/// distinct bit patterns that IEEE 754 compares as equal.
pub open spec fn spec_canonical(bits: u64) -> u64 {
    if bits == SIGN_BIT {
        0
    } else {
        bits
    }
}

/// The IEEE 754 `<` on bit patterns: false whenever either side is `NaN`,
/// otherwise the total order on canonical bit patterns.
pub open spec fn spec_lt_bits(a: u64, b: u64) -> bool {
    &&& !spec_is_nan(a)
    &&& !spec_is_nan(b)
    &&& spec_total_order_key(spec_canonical(a)) < spec_total_order_key(spec_canonical(b))
}

/// The IEEE 754 `<=` on bit patterns.
pub open spec fn spec_le_bits(a: u64, b: u64) -> bool {
    &&& !spec_is_nan(a)
    &&& !spec_is_nan(b)
    &&& spec_total_order_key(spec_canonical(a)) <= spec_total_order_key(spec_canonical(b))
}

/// The key by which styled output is sorted: the IEEE 754 total order with
/// the two zeros collapsed, so that equal z-index values (and only those,
/// apart from `NaN` payloads) fall back to the secondary sort key.
pub open spec fn spec_draw_order_key(bits: u64) -> u64 {
    spec_total_order_key(spec_canonical(bits))
}

/// On values that are not `NaN`, the sort key orders exactly as the IEEE
/// 754 comparison does, so a sequence sorted by the key is non-decreasing
/// in the floating-point value wherever two values are comparable.
pub proof fn lemma_draw_order_key_orders_values(a: u64, b: u64)
    requires
        !spec_is_nan(a),
        !spec_is_nan(b),
    ensures
        (spec_draw_order_key(a) <= spec_draw_order_key(b)) == spec_le_bits(a, b),
        (spec_draw_order_key(a) < spec_draw_order_key(b)) == spec_lt_bits(a, b),
{
}

/// Whether a bit pattern denotes `NaN`.
pub fn is_nan_bits(bits: u64) -> (r: bool)
    ensures
        r == spec_is_nan(bits),
{
    bits & EXPONENT_MASK == EXPONENT_MASK && bits & MANTISSA_MASK != 0
}

/// The sort key realising the IEEE 754 total order with zeros collapsed.
pub fn draw_order_key(bits: u64) -> (r: u64)
    ensures
        r == spec_draw_order_key(bits),
{
    let canonical: u64 = if bits == SIGN_BIT {
        0
    } else {
        bits
    };
    if canonical & SIGN_BIT != 0 {
        canonical ^ 0xFFFF_FFFF_FFFF_FFFF
    } else {
        canonical ^ SIGN_BIT
    }
}

/// The IEEE 754 `<` on bit patterns.
pub fn lt_bits(a: u64, b: u64) -> (r: bool)
    ensures
        r == spec_lt_bits(a, b),
{
    !is_nan_bits(a) && !is_nan_bits(b) && draw_order_key(a) < draw_order_key(b)
}

/// The IEEE 754 `<=` on bit patterns.
pub fn le_bits(a: u64, b: u64) -> (r: bool)
    ensures
        r == spec_le_bits(a, b),
{
    !is_nan_bits(a) && !is_nan_bits(b) && draw_order_key(a) <= draw_order_key(b)
}

} // verus!
