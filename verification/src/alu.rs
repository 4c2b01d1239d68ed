//! Register arithmetic.
//!
//! Registers hold bytes, and all arithmetic on them wraps modulo 256. The
//! operations that can lose information report it in a flag, which the
//! executor writes to `VF`: the carry of an addition, the absence of a borrow
//! in a subtraction, and the bit that a shift pushes out.
use vstd::prelude::*;

verus! {

/// The sum of two bytes, modulo 256.
pub open spec fn sum(a: u8, b: u8) -> u8 {
    ((a + b) % 256) as u8
}

/// 1 if the sum of two bytes does not fit in a byte, else 0.
pub open spec fn carry(a: u8, b: u8) -> u8 {
    if a + b > 255 {
        1
    } else {
        0
    }
}

/// The difference `a - b`, modulo 256.
pub open spec fn difference(a: u8, b: u8) -> u8 {
    ((a - b) % 256) as u8
}

/// 1 if `a - b` needs no borrow, that is if `a >= b`, else 0.
pub open spec fn no_borrow(a: u8, b: u8) -> u8 {
    if a >= b {
        1
    } else {
        0
    }
}

/// The byte shifted right by one bit.
pub open spec fn halved(a: u8) -> u8 {
    a / 2
}

/// The lowest bit of the byte, the one that a right shift pushes out.
pub open spec fn low_bit(a: u8) -> u8 {
    a % 2
}

/// The byte shifted left by one bit, modulo 256.
pub open spec fn doubled(a: u8) -> u8 {
    ((a * 2) % 256) as u8
}

/// The highest bit of the byte, the one that a left shift pushes out.
pub open spec fn high_bit(a: u8) -> u8 {
    a / 128
}

/// The hundreds, tens and ones of the byte in decimal.
pub open spec fn decimal_digits(a: u8) -> (u8, u8, u8) {
    (a / 100, (a / 10) % 10, a % 10)
}

/// The decimal digits are digits, and spell the byte.
pub proof fn lemma_decimal_digits(a: u8)
    ensures
        decimal_digits(a).0 <= 2,
        decimal_digits(a).1 <= 9,
        decimal_digits(a).2 <= 9,
        100 * decimal_digits(a).0 + 10 * decimal_digits(a).1 + decimal_digits(a).2 == a,
{
}

/// Adds two bytes, dropping the carry.
pub fn add_wrapping(a: u8, b: u8) -> (r: u8)
    ensures
        r == sum(a, b),
{
    let wide: u16 = a as u16 + b as u16;
    (wide % 256) as u8
}

/// Adds two bytes and reports the carry.
pub fn add_with_carry(a: u8, b: u8) -> (r: (u8, u8))
    ensures
        r.0 == sum(a, b),
        r.1 == carry(a, b),
        r.0 + 256 * r.1 == a + b,
{
    let wide: u16 = a as u16 + b as u16;
    let flag: u8 = if wide > 255 {
        1
    } else {
        0
    };
    ((wide % 256) as u8, flag)
}

/// Subtracts `b` from `a` and reports whether no borrow was needed.
pub fn sub_with_borrow(a: u8, b: u8) -> (r: (u8, u8))
    ensures
        r.0 == difference(a, b),
        r.1 == no_borrow(a, b),
        r.0 - 256 * (1 - r.1) == a - b,
{
    if a >= b {
        (a - b, 1)
    } else {
        let wide: u16 = 256 + a as u16 - b as u16;
        (wide as u8, 0)
    }
}

/// Shifts the byte right by one bit and reports the bit pushed out.
pub fn shift_right(a: u8) -> (r: (u8, u8))
    ensures
        r.0 == halved(a),
        r.1 == low_bit(a),
        2 * r.0 + r.1 == a,
{
    assert(a >> 1 == a / 2) by (bit_vector);
    assert(a & 1 == a % 2) by (bit_vector);
    (a >> 1, a & 1)
}

/// Shifts the byte left by one bit and reports the bit pushed out.
pub fn shift_left(a: u8) -> (r: (u8, u8))
    ensures
        r.0 == doubled(a),
        r.1 == high_bit(a),
        r.0 + 256 * r.1 == 2 * a,
{
    assert(a << 1 == (a * 2) % 256) by (bit_vector);
    assert((a >> 7) & 1 == a / 128) by (bit_vector);
    (a << 1, (a >> 7) & 1)
}

/// Splits the byte into its three decimal digits.
pub fn to_decimal(a: u8) -> (d: (u8, u8, u8))
    ensures
        d == decimal_digits(a),
        d.0 <= 2 && d.1 <= 9 && d.2 <= 9,
        100 * d.0 + 10 * d.1 + d.2 == a,
{
    (a / 100, (a / 10) % 10, a % 10)
}

} // verus!
