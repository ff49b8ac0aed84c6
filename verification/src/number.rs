//! Numbers of the language: IEEE 754 doubles, held as their bit patterns.
//! What can be read off the bits is decided here: whether a number is zero
//! or not a number, how two numbers compare, and the negative of one. Sums,
//! products and quotients, and the passage between numbers and their
//! decimal text, are left to whoever drives the interpreter.

use vstd::prelude::*;

verus! {

/// The bit that holds the sign.
pub const SIGN_BIT: u64 = 0x8000_0000_0000_0000;

/// The bit pattern of positive infinity: every pattern whose magnitude is
/// greater is not a number.
pub const INFINITY: u64 = 0x7ff0_0000_0000_0000;

/// The bit pattern of zero.
pub const ZERO: u64 = 0;

/// The bit pattern of one.
pub const ONE: u64 = 0x3ff0_0000_0000_0000;

/// The bits without the sign.
pub open spec fn magnitude(bits: u64) -> u64 {
    if bits >= SIGN_BIT {
        (bits - SIGN_BIT) as u64
    } else {
        bits
    }
}

/// Whether the sign bit is set.
pub open spec fn is_negative(bits: u64) -> bool {
    bits >= SIGN_BIT
}

/// Whether the bits hold no number.
pub open spec fn is_nan(bits: u64) -> bool {
    magnitude(bits) > INFINITY
}

/// Whether the bits hold zero, of either sign.
pub open spec fn is_zero(bits: u64) -> bool {
    magnitude(bits) == 0
}

/// Equality of doubles: what is not a number equals nothing, the two zeros
/// are equal, and otherwise the bits decide.
pub open spec fn number_equal(a: u64, b: u64) -> bool {
    &&& !is_nan(a)
    &&& !is_nan(b)
    &&& (a == b || (is_zero(a) && is_zero(b)))
}

/// The order of doubles: nothing is less than, or greater than, what is not
/// a number; the two zeros are equal; a negative number is less than a
/// positive one; and among numbers of one sign the magnitudes decide.
pub open spec fn number_less(a: u64, b: u64) -> bool {
    &&& !is_nan(a)
    &&& !is_nan(b)
    &&& !(is_zero(a) && is_zero(b))
    &&& if is_negative(a) != is_negative(b) {
        is_negative(a)
    } else if is_negative(a) {
        magnitude(a) > magnitude(b)
    } else {
        magnitude(a) < magnitude(b)
    }
}

/// The negative: the same bits with the sign turned.
pub open spec fn number_negated(bits: u64) -> u64 {
    if bits >= SIGN_BIT {
        (bits - SIGN_BIT) as u64
    } else {
        (bits + SIGN_BIT) as u64
    }
}

/// The number that stands for a truth value: one or zero.
pub open spec fn number_of_bool(b: bool) -> u64 {
    if b {
        ONE
    } else {
        ZERO
    }
}

fn exec_magnitude(bits: u64) -> (r: u64)
    ensures
        r == magnitude(bits),
{
    if bits >= SIGN_BIT {
        bits - SIGN_BIT
    } else {
        bits
    }
}

/// Whether `bits` holds no number.
pub fn not_a_number(bits: u64) -> (r: bool)
    ensures
        r == is_nan(bits),
{
    exec_magnitude(bits) > INFINITY
}

/// Whether `bits` holds zero.
pub fn zero(bits: u64) -> (r: bool)
    ensures
        r == is_zero(bits),
{
    exec_magnitude(bits) == 0
}

/// Whether the two doubles are equal.
pub fn equal(a: u64, b: u64) -> (r: bool)
    ensures
        r == number_equal(a, b),
{
    !not_a_number(a) && !not_a_number(b) && (a == b || (zero(a) && zero(b)))
}

/// Whether the first double is less than the second.
pub fn less(a: u64, b: u64) -> (r: bool)
    ensures
        r == number_less(a, b),
{
    if not_a_number(a) || not_a_number(b) || (zero(a) && zero(b)) {
        return false;
    }
    let a_negative = a >= SIGN_BIT;
    let b_negative = b >= SIGN_BIT;
    if a_negative != b_negative {
        a_negative
    } else if a_negative {
        exec_magnitude(a) > exec_magnitude(b)
    } else {
        exec_magnitude(a) < exec_magnitude(b)
    }
}

/// The negative of a double.
pub fn negated(bits: u64) -> (r: u64)
    ensures
        r == number_negated(bits),
{
    if bits >= SIGN_BIT {
        bits - SIGN_BIT
    } else {
        bits + SIGN_BIT
    }
}

/// One for `true`, zero for `false`.
pub fn from_bool(b: bool) -> (r: u64)
    ensures
        r == number_of_bool(b),
{
    if b {
        ONE
    } else {
        ZERO
    }
}

/// Equality is symmetric, and holds of every number and itself.
pub proof fn law_equality(a: u64, b: u64)
    ensures
        number_equal(a, b) == number_equal(b, a),
        !is_nan(a) ==> number_equal(a, a),
        number_equal(a, b) ==> !number_less(a, b) && !number_less(b, a),
{
}

/// Of two numbers, exactly one holds: they are equal, the first is less, or
/// the second is less.
pub proof fn law_order_is_total(a: u64, b: u64)
    requires
        !is_nan(a),
        !is_nan(b),
    ensures
        number_equal(a, b) || number_less(a, b) || number_less(b, a),
        !(number_less(a, b) && number_less(b, a)),
{
}

/// Negating twice gives the number back, and turns the order round.
pub proof fn law_negation(a: u64, b: u64)
    ensures
        number_negated(number_negated(a)) == a,
        is_nan(number_negated(a)) == is_nan(a),
        number_less(number_negated(a), number_negated(b)) == number_less(b, a),
{
}

} // verus!
