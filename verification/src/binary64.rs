//! Market prices travel through the library as the 64-bit patterns of their
//! IEEE-754 binary64 encoding (sign bit, eleven exponent bits, fifty-two
//! fraction bits). This module states, over those patterns, the comparisons
//! and the selections that the market logic makes on prices, and computes them.
//!
//! The order of the encoded values is read from the patterns directly: with the
//! sign bit clear, a larger pattern is a larger value; with it set, a larger
//! pattern is a smaller value; the two zeros are equal, and the patterns above
//! infinity in magnitude are NaN, which compares with nothing.
use vstd::prelude::*;

verus! {

/// The sign bit.
pub const SIGN_BIT: u64 = 0x8000_0000_0000_0000;

/// The pattern of positive infinity; a larger magnitude encodes NaN.
pub const INFINITY_BITS: u64 = 0x7FF0_0000_0000_0000;

/// The pattern of positive zero.
pub const ZERO_BITS: u64 = 0;

/// The pattern without its sign bit.
pub open spec fn magnitude(bits: u64) -> u64 {
    bits % SIGN_BIT
}

/// Whether the sign bit is set.
pub open spec fn sign_set(bits: u64) -> bool {
    bits >= SIGN_BIT
}

pub open spec fn spec_is_nan(bits: u64) -> bool {
    magnitude(bits) > INFINITY_BITS
}

pub open spec fn spec_is_finite(bits: u64) -> bool {
    magnitude(bits) < INFINITY_BITS
}

/// An integer that orders the non-NaN encodings as their values are ordered,
/// with both zeros at 0.
pub open spec fn rank(bits: u64) -> int {
    if sign_set(bits) {
        -(magnitude(bits) as int)
    } else {
        magnitude(bits) as int
    }
}

/// `a < b` on the encoded values.
pub open spec fn spec_lt(a: u64, b: u64) -> bool {
    !spec_is_nan(a) && !spec_is_nan(b) && rank(a) < rank(b)
}

/// `a <= b` on the encoded values.
pub open spec fn spec_le(a: u64, b: u64) -> bool {
    !spec_is_nan(a) && !spec_is_nan(b) && rank(a) <= rank(b)
}

/// `a == b` on the encoded values.
pub open spec fn spec_eq(a: u64, b: u64) -> bool {
    !spec_is_nan(a) && !spec_is_nan(b) && rank(a) == rank(b)
}

/// `bits > 0`.
pub open spec fn spec_is_positive(bits: u64) -> bool {
    spec_lt(ZERO_BITS, bits)
}

/// `bits` is finite and greater than zero: what the market takes for a price.
pub open spec fn spec_is_valid_price(bits: u64) -> bool {
    spec_is_finite(bits) && spec_is_positive(bits)
}

/// The maximum of two encoded values, ignoring NaN: a NaN argument yields the
/// other one.
pub open spec fn spec_max(a: u64, b: u64) -> u64 {
    if spec_is_nan(a) {
        b
    } else if spec_is_nan(b) {
        a
    } else if spec_lt(a, b) {
        b
    } else {
        a
    }
}

/// The minimum of two encoded values, ignoring NaN: a NaN argument yields the
/// other one.
pub open spec fn spec_min(a: u64, b: u64) -> u64 {
    if spec_is_nan(a) {
        b
    } else if spec_is_nan(b) {
        a
    } else if spec_lt(b, a) {
        b
    } else {
        a
    }
}

pub fn is_nan(bits: u64) -> (r: bool)
    ensures
        r == spec_is_nan(bits),
{
    bits % SIGN_BIT > INFINITY_BITS
}

pub fn is_finite(bits: u64) -> (r: bool)
    ensures
        r == spec_is_finite(bits),
{
    bits % SIGN_BIT < INFINITY_BITS
}

pub fn less_than(a: u64, b: u64) -> (r: bool)
    ensures
        r == spec_lt(a, b),
{
    let ma = a % SIGN_BIT;
    let mb = b % SIGN_BIT;
    if ma > INFINITY_BITS || mb > INFINITY_BITS {
        return false;
    }
    let na = a >= SIGN_BIT;
    let nb = b >= SIGN_BIT;
    if !na && !nb {
        ma < mb
    } else if na && nb {
        mb < ma
    } else if na {
        !(ma == 0 && mb == 0)
    } else {
        false
    }
}

pub fn less_or_equal(a: u64, b: u64) -> (r: bool)
    ensures
        r == spec_le(a, b),
{
    if is_nan(a) || is_nan(b) {
        false
    } else {
        !less_than(b, a)
    }
}

pub fn equals(a: u64, b: u64) -> (r: bool)
    ensures
        r == spec_eq(a, b),
{
    less_or_equal(a, b) && less_or_equal(b, a)
}

pub fn is_positive(bits: u64) -> (r: bool)
    ensures
        r == spec_is_positive(bits),
{
    less_than(ZERO_BITS, bits)
}

pub fn is_valid_price(bits: u64) -> (r: bool)
    ensures
        r == spec_is_valid_price(bits),
{
    is_finite(bits) && is_positive(bits)
}

pub fn maximum(a: u64, b: u64) -> (r: u64)
    ensures
        r == spec_max(a, b),
{
    if is_nan(a) {
        b
    } else if is_nan(b) {
        a
    } else if less_than(a, b) {
        b
    } else {
        a
    }
}

pub fn minimum(a: u64, b: u64) -> (r: u64)
    ensures
        r == spec_min(a, b),
{
    if is_nan(a) {
        b
    } else if is_nan(b) {
        a
    } else if less_than(b, a) {
        b
    } else {
        a
    }
}

/// Keeps a value only when it is finite.
pub fn finite_only(value: Option<u64>) -> (r: Option<u64>)
    ensures
        r == (match value {
            Some(bits) => if spec_is_finite(bits) {
                Some(bits)
            } else {
                None
            },
            None => None,
        }),
{
    match value {
        Some(bits) => if is_finite(bits) {
            Some(bits)
        } else {
            None
        },
        None => None,
    }
}

/// The maximum of two values is one of them and is at least each of them that
/// is not NaN; the minimum is one of them and is at most each of them that is
/// not NaN.
pub proof fn lemma_max_min_choose_extreme(a: u64, b: u64)
    ensures
        spec_max(a, b) == a || spec_max(a, b) == b,
        !spec_is_nan(a) ==> spec_le(a, spec_max(a, b)),
        !spec_is_nan(b) ==> spec_le(b, spec_max(a, b)),
        spec_min(a, b) == a || spec_min(a, b) == b,
        !spec_is_nan(a) ==> spec_le(spec_min(a, b), a),
        !spec_is_nan(b) ==> spec_le(spec_min(a, b), b),
{
}

/// A valid price is not NaN, and the maximum and minimum of anything with a
/// valid price bracket that price.
pub proof fn lemma_extremes_bracket_price(other: u64, price: u64)
    requires
        spec_is_valid_price(price),
    ensures
        !spec_is_nan(price),
        spec_le(price, spec_max(other, price)),
        spec_le(spec_min(other, price), price),
        spec_is_nan(other) ==> spec_max(other, price) == price && spec_min(other, price) == price,
{
}

} // verus!
