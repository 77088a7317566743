//! Numbers.
//!
//! A number of the language is an IEEE-754 binary64 value. The library
//! carries it as its 64-bit pattern: one sign bit, eleven exponent bits and
//! fifty-two fraction bits. What the library itself needs of a number
//! (whether it is zero, how two numbers compare, which integer it
//! truncates to) is read off that pattern. Arithmetic is left to the host.
use vstd::prelude::*;

verus! {

pub const SIGN_MASK: u64 = 0x8000_0000_0000_0000;

pub const MAGNITUDE_MASK: u64 = 0x7fff_ffff_ffff_ffff;

/// The magnitude bits of infinity: every exponent bit set, no fraction bit.
pub const INFINITY: u64 = 0x7ff0_0000_0000_0000;

/// The pattern of `0.0`.
pub const ZERO: u64 = 0;

/// The pattern of `1.0`.
pub const ONE: u64 = 0x3ff0_0000_0000_0000;

/// Not a number: the exponent bits are all set and some fraction bit is.
pub open spec fn is_nan(bits: u64) -> bool {
    bits & MAGNITUDE_MASK > INFINITY
}

/// `+0.0` or `-0.0`.
pub open spec fn is_zero(bits: u64) -> bool {
    bits & MAGNITUDE_MASK == 0
}

/// An integer that orders the numbers as IEEE-754 orders them: the
/// magnitude bits read as an integer, negated where the sign bit is set.
/// Both zeros have the key 0.
pub open spec fn order_key(bits: u64) -> int {
    if bits & SIGN_MASK != 0 {
        -((bits & MAGNITUDE_MASK) as int)
    } else {
        (bits & MAGNITUDE_MASK) as int
    }
}

/// `a == b` as numbers: false where either is not a number, true of the
/// two zeros.
pub open spec fn num_eq(a: u64, b: u64) -> bool {
    !is_nan(a) && !is_nan(b) && order_key(a) == order_key(b)
}

/// `a < b` as numbers: false where either is not a number.
pub open spec fn num_lt(a: u64, b: u64) -> bool {
    !is_nan(a) && !is_nan(b) && order_key(a) < order_key(b)
}

/// `a <= b` as numbers: false where either is not a number.
pub open spec fn num_le(a: u64, b: u64) -> bool {
    !is_nan(a) && !is_nan(b) && order_key(a) <= order_key(b)
}

/// Whether `bits` is not a number.
pub fn nan(bits: u64) -> (r: bool)
    ensures
        r == is_nan(bits),
{
    bits & MAGNITUDE_MASK > INFINITY
}

/// Whether `bits` is one of the two zeros.
pub fn zero(bits: u64) -> (r: bool)
    ensures
        r == is_zero(bits),
{
    bits & MAGNITUDE_MASK == 0
}

fn key(bits: u64) -> (r: i64)
    ensures
        r == order_key(bits),
{
    let m = bits & MAGNITUDE_MASK;
    assert(bits & 0x7fff_ffff_ffff_ffff <= 0x7fff_ffff_ffff_ffff) by (bit_vector);
    if bits & SIGN_MASK != 0 {
        -(m as i64)
    } else {
        m as i64
    }
}

/// `a == b` as numbers.
pub fn eq(a: u64, b: u64) -> (r: bool)
    ensures
        r == num_eq(a, b),
{
    !nan(a) && !nan(b) && key(a) == key(b)
}

/// `a < b` as numbers.
pub fn lt(a: u64, b: u64) -> (r: bool)
    ensures
        r == num_lt(a, b),
{
    !nan(a) && !nan(b) && key(a) < key(b)
}

/// `a <= b` as numbers.
pub fn le(a: u64, b: u64) -> (r: bool)
    ensures
        r == num_le(a, b),
{
    !nan(a) && !nan(b) && key(a) <= key(b)
}

} // verus!

verus! {

use vstd::arithmetic::power2::{pow2, lemma2_to64, lemma_pow2_strictly_increases, lemma_pow2_pos};
use vstd::bits::{lemma_u64_shl_is_mul, lemma_u64_shr_is_div};

/// The exponent field: bits 62 to 52.
pub open spec fn exponent(bits: u64) -> int {
    ((bits >> 52) & 0x7ff) as int
}

/// The 53-bit significand of a normal number: the fraction bits below an
/// implicit leading one.
pub open spec fn significand(bits: u64) -> int {
    ((bits & 0x000f_ffff_ffff_ffff) | 0x0010_0000_0000_0000) as int
}

/// The integer part of the magnitude of a number that is neither NaN nor
/// subnormal: the significand scaled by two to the power of the exponent
/// less its bias of 1023 and the 52 fraction bits, rounded towards zero.
pub open spec fn integer_magnitude(bits: u64) -> int {
    let e = exponent(bits);
    if e < 1023 {
        0
    } else if e >= 1075 {
        significand(bits) * pow2((e - 1075) as nat)
    } else {
        significand(bits) / (pow2((1075 - e) as nat) as int)
    }
}

/// The number truncated to a 64-bit integer: its integer part where that
/// fits, the nearest end of the range where it does not, and 0 for NaN.
pub open spec fn truncated(bits: u64) -> int {
    if is_nan(bits) {
        0
    } else {
        let m = integer_magnitude(bits);
        let v = if bits & SIGN_MASK != 0 {
            -m
        } else {
            m
        };
        if v > i64::MAX {
            i64::MAX as int
        } else if v < i64::MIN {
            i64::MIN as int
        } else {
            v
        }
    }
}

proof fn lemma_pow2_at_least(lo: nat, e: nat)
    requires
        lo <= e,
    ensures
        pow2(lo) <= pow2(e),
{
    if lo < e {
        lemma_pow2_strictly_increases(lo, e);
    }
}

/// The number truncated to a 64-bit integer.
pub fn to_i64(bits: u64) -> (r: i64)
    ensures
        r == truncated(bits),
{
    if nan(bits) {
        return 0;
    }
    let e: u64 = (bits >> 52) & 0x7ff;
    let negative = bits & SIGN_MASK != 0;
    let s: u64 = (bits & 0x000f_ffff_ffff_ffff) | 0x0010_0000_0000_0000;
    assert(e < 2048) by (bit_vector)
        requires
            e == (bits >> 52) & 0x7ff,
    ;
    assert(0x0010_0000_0000_0000 <= s < 0x0020_0000_0000_0000) by (bit_vector)
        requires
            s == (bits & 0x000f_ffff_ffff_ffff) | 0x0010_0000_0000_0000,
    ;
    proof {
        lemma2_to64();
    }
    if e < 1023 {
        return 0;
    }
    if e >= 1086 {
        proof {
            let k = (e - 1075) as nat;
            lemma_pow2_at_least(11, k);
            assert(s * pow2(k) >= 0x0010_0000_0000_0000 * 0x800) by (nonlinear_arith)
                requires
                    s >= 0x0010_0000_0000_0000,
                    pow2(k) >= 0x800,
            ;
        }
        return if negative {
            i64::MIN
        } else {
            i64::MAX
        };
    }
    let m: u64 = if e >= 1075 {
        let k: u64 = e - 1075;
        proof {
            lemma_pow2_at_least(k as nat, 10);
            lemma_pow2_pos(k as nat);
            assert(s * pow2(k as nat) < 0x0020_0000_0000_0000 * 0x400) by (nonlinear_arith)
                requires
                    s < 0x0020_0000_0000_0000,
                    0 < pow2(k as nat) <= 0x400,
            ;
            lemma_u64_shl_is_mul(s, k);
        }
        s << k
    } else {
        let k: u64 = 1075 - e;
        proof {
            lemma_u64_shr_is_div(s, k);
            lemma_pow2_pos(k as nat);
        }
        s >> k
    };
    assert(m == integer_magnitude(bits));
    assert(m < 0x8000_0000_0000_0000) by {
        if e < 1075 {
            let k = (1075 - e) as nat;
            lemma_pow2_pos(k);
            assert(s as int / (pow2(k) as int) <= s) by (nonlinear_arith)
                requires
                    s >= 0,
                    pow2(k) > 0,
            ;
        }
    }
    if negative {
        -(m as i64)
    } else {
        m as i64
    }
}

} // verus!
