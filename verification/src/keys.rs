//! Integer keys for numbers given by their IEEE 754 bit patterns: a key
//! orders as the number does, and the number can be had back from it.

use vstd::arithmetic::power2::{lemma_pow2_strictly_increases, lemma_pow2_unfold, pow2};
use vstd::prelude::*;

verus! {

/// The bit that holds the sign of a double-precision number.
pub const SIGN: u64 = 0x8000_0000_0000_0000;

/// The magnitude of the infinities: every greater magnitude is no number.
pub const INFINITE: u64 = 0x7ff0_0000_0000_0000;

/// The key of the double-precision number with the bits `bits`: the
/// magnitude for a number without the sign bit, and `-1 - magnitude` for one
/// with it.
pub open spec fn key_of(bits: u64) -> int {
    if bits < SIGN {
        bits as int
    } else {
        -1 - (bits - SIGN)
    }
}

/// The bits of the number whose key is `k`.
pub open spec fn bits_of(k: i64) -> int {
    if k >= 0 {
        k as int
    } else {
        SIGN + (-1 - k)
    }
}

/// What an estimator is given for the number with the bits `bits`: nothing
/// where it is no number, the key of zero for either zero, and the number's
/// key otherwise.
pub open spec fn observed(bits: u64) -> Option<i64> {
    let magnitude = if bits < SIGN { bits as int } else { bits - SIGN };
    if magnitude > INFINITE {
        None
    } else if magnitude == 0 {
        Some(0i64)
    } else {
        Some(key_of(bits) as i64)
    }
}

/// The fraction that the single-precision number with the bits `bits` is
/// exactly, for a number strictly between 0 and 1 that is at least 2^-39:
/// its 24-bit significand over a power of two.
pub open spec fn fraction_of(bits: u32) -> Option<(u64, u64)> {
    let exponent = bits / 0x80_0000;
    let mantissa = bits % 0x80_0000;
    if 88 <= exponent <= 126 {
        Some(((0x80_0000 + mantissa) as u64, pow2((150 - exponent) as nat) as u64))
    } else {
        None
    }
}

/// The key of the number with the bits `bits`.
pub fn key(bits: u64) -> (k: i64)
    ensures
        k == key_of(bits),
{
    if bits < SIGN {
        bits as i64
    } else {
        let magnitude: u64 = bits - SIGN;
        -1 - (magnitude as i64)
    }
}

/// The bits of the number with the key `k`.
pub fn bits(k: i64) -> (b: u64)
    ensures
        b == bits_of(k),
        key_of(b) == k,
{
    if k >= 0 {
        k as u64
    } else {
        let magnitude: i64 = -1 - k;
        SIGN + (magnitude as u64)
    }
}

/// The observation that the number with the bits `bits` makes.
pub fn observation(bits: u64) -> (x: Option<i64>)
    ensures
        x == observed(bits),
{
    let magnitude: u64 = if bits < SIGN { bits } else { bits - SIGN };
    if magnitude > INFINITE {
        None
    } else if magnitude == 0 {
        Some(0)
    } else {
        Some(key(bits))
    }
}

/// The numerator and denominator of the single-precision number with the
/// bits `bits`; nothing unless the number lies strictly between 0 and 1 and
/// is at least 2^-39.
pub fn fraction(bits: u32) -> (r: Option<(u64, u64)>)
    ensures
        r == fraction_of(bits),
        r matches Some((num, den)) ==> 0 < num < den && 2 * den <= u64::MAX,
{
    let exponent: u32 = bits / 0x80_0000;
    let mantissa: u32 = bits % 0x80_0000;
    if exponent < 88 || exponent > 126 {
        return None;
    }
    let shift: u32 = 150 - exponent;
    let mut den: u64 = 0x100_0000;
    let mut done: u32 = 24;
    proof {
        vstd::arithmetic::power2::lemma2_to64();
        vstd::arithmetic::power2::lemma2_to64_rest();
    }
    while done < shift
        invariant
            24 <= done <= shift <= 62,
            den == pow2(done as nat),
            0x100_0000 <= den,
            den <= pow2(62),
            pow2(62) == 0x4000_0000_0000_0000,
        decreases shift - done,
    {
        proof {
            lemma_pow2_unfold((done + 1) as nat);
            if done + 1 < 62 {
                lemma_pow2_strictly_increases((done + 1) as nat, 62);
            }
        }
        den = den * 2;
        done += 1;
    }
    Some((0x80_0000 + mantissa as u64, den))
}

} // verus!
