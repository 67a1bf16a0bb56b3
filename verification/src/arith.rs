//! Eight-bit arithmetic with explicit reduction modulo 256.

use vstd::prelude::*;

verus! {

/// `value` reduced modulo 256.
pub open spec fn low_byte(value: int) -> u8 {
    (value % 256) as u8
}

/// The sum of `a` and `b` modulo 256.
pub fn wrapping_sum(a: u8, b: u8) -> (sum: u8)
    ensures
        sum == low_byte(a + b),
{
    let wide: u16 = a as u16 + b as u16;
    (wide % 256) as u8
}

/// The difference `a - b` modulo 256.
pub fn wrapping_difference(a: u8, b: u8) -> (difference: u8)
    ensures
        difference == low_byte(a - b),
{
    if a >= b {
        a - b
    } else {
        let short: u16 = b as u16 - a as u16;
        (256 - short) as u8
    }
}

/// Twice `a` modulo 256: `a` shifted left by one bit within a byte.
pub fn wrapping_double(a: u8) -> (doubled: u8)
    ensures
        doubled == low_byte(a * 2),
{
    let wide: u16 = a as u16 * 2;
    (wide % 256) as u8
}

} // verus!
