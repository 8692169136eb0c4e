//! Numbers are IEEE 754 doubles, held as their 64-bit patterns. What can be
//! read off a pattern is decided here: sign, order and equality. Sums,
//! products and the like are asked of the [`Host`](crate::callable::Host).

use vstd::prelude::*;

verus! {

pub const SIGN_BIT: u64 = 0x8000_0000_0000_0000u64;

pub const MAGNITUDE_BITS: u64 = 0x7fff_ffff_ffff_ffffu64;

/// The pattern of positive infinity; a larger magnitude is not a number.
pub const INFINITY_BITS: u64 = 0x7ff0_0000_0000_0000u64;

pub open spec fn magnitude(bits: u64) -> u64 {
    bits & MAGNITUDE_BITS
}

pub open spec fn is_negative(bits: u64) -> bool {
    bits & SIGN_BIT != 0
}

pub open spec fn is_nan(bits: u64) -> bool {
    magnitude(bits) > INFINITY_BITS
}

/// Positive or negative zero.
pub open spec fn is_zero(bits: u64) -> bool {
    magnitude(bits) == 0
}

/// An integer that orders the patterns as their numbers are ordered, for
/// patterns that are numbers. Both zeros have key 0.
pub open spec fn order_key(bits: u64) -> int {
    if is_negative(bits) {
        -(magnitude(bits) as int)
    } else {
        magnitude(bits) as int
    }
}

/// `a == b` as doubles: false if either is not a number.
pub open spec fn number_eq(a: u64, b: u64) -> bool {
    !is_nan(a) && !is_nan(b) && order_key(a) == order_key(b)
}

/// `a < b` as doubles: false if either is not a number.
pub open spec fn number_lt(a: u64, b: u64) -> bool {
    !is_nan(a) && !is_nan(b) && order_key(a) < order_key(b)
}

/// `a <= b` as doubles: false if either is not a number.
pub open spec fn number_le(a: u64, b: u64) -> bool {
    !is_nan(a) && !is_nan(b) && order_key(a) <= order_key(b)
}

/// `-a` as a double: the same pattern with the sign flipped.
pub open spec fn number_neg(a: u64) -> u64 {
    a ^ SIGN_BIT
}

pub fn zero(bits: u64) -> (r: bool)
    ensures
        r == is_zero(bits),
{
    bits & MAGNITUDE_BITS == 0
}

pub fn not_a_number(bits: u64) -> (r: bool)
    ensures
        r == is_nan(bits),
{
    bits & MAGNITUDE_BITS > INFINITY_BITS
}

pub fn negate(bits: u64) -> (r: u64)
    ensures
        r == number_neg(bits),
{
    bits ^ SIGN_BIT
}

pub fn equal(a: u64, b: u64) -> (r: bool)
    ensures
        r == number_eq(a, b),
{
    if not_a_number(a) || not_a_number(b) {
        false
    } else {
        let ma: u64 = a & MAGNITUDE_BITS;
        let mb: u64 = b & MAGNITUDE_BITS;
        let na: bool = a & SIGN_BIT != 0;
        let nb: bool = b & SIGN_BIT != 0;
        if na == nb {
            ma == mb
        } else {
            ma == 0 && mb == 0
        }
    }
}

pub fn less(a: u64, b: u64) -> (r: bool)
    ensures
        r == number_lt(a, b),
{
    if not_a_number(a) || not_a_number(b) {
        false
    } else {
        let ma: u64 = a & MAGNITUDE_BITS;
        let mb: u64 = b & MAGNITUDE_BITS;
        let na: bool = a & SIGN_BIT != 0;
        let nb: bool = b & SIGN_BIT != 0;
        if na && nb {
            mb < ma
        } else if na {
            !(ma == 0 && mb == 0)
        } else if nb {
            false
        } else {
            ma < mb
        }
    }
}

pub fn less_equal(a: u64, b: u64) -> (r: bool)
    ensures
        r == number_le(a, b),
{
    if not_a_number(a) || not_a_number(b) {
        false
    } else {
        let ma: u64 = a & MAGNITUDE_BITS;
        let mb: u64 = b & MAGNITUDE_BITS;
        let na: bool = a & SIGN_BIT != 0;
        let nb: bool = b & SIGN_BIT != 0;
        if na && nb {
            mb <= ma
        } else if na {
            true
        } else if nb {
            ma == 0 && mb == 0
        } else {
            ma <= mb
        }
    }
}

/// Equality is symmetric, and a number that is one equals itself.
pub proof fn lemma_number_eq(a: u64, b: u64)
    ensures
        number_eq(a, b) == number_eq(b, a),
        number_eq(a, a) == !is_nan(a),
        number_le(a, b) == (number_lt(a, b) || number_eq(a, b)),
        number_lt(a, b) ==> !number_lt(b, a),
{
}

/// Negating twice gives the number back, and negation keeps what is not a
/// number so.
pub proof fn lemma_negate_twice(a: u64)
    ensures
        number_neg(number_neg(a)) == a,
        is_nan(number_neg(a)) == is_nan(a),
        is_zero(number_neg(a)) == is_zero(a),
        !is_zero(a) ==> is_negative(number_neg(a)) != is_negative(a),
{
    assert(((a ^ 0x8000_0000_0000_0000u64) ^ 0x8000_0000_0000_0000u64) == a) by (bit_vector);
    assert(((a ^ 0x8000_0000_0000_0000u64) & 0x7fff_ffff_ffff_ffffu64) == (a
        & 0x7fff_ffff_ffff_ffffu64)) by (bit_vector);
    assert((((a ^ 0x8000_0000_0000_0000u64) & 0x8000_0000_0000_0000u64) != 0) != ((a
        & 0x8000_0000_0000_0000u64) != 0)) by (bit_vector);
}

} // verus!
