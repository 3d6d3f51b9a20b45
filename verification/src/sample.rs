//! Numeric mapping between hardware and logical sample representations.
//!
//! The engine's logical integer samples are 16-bit; hardware integer samples
//! are 16- or 32-bit.  Conversion between equal widths is the identity.
//! Conversion across widths scales by the ratio of the two type maxima,
//! computed in a wider integer so that the product cannot overflow, and
//! truncates (it does not round).  Narrowing back to the hardware width wraps
//! as a machine cast does.  Output streams mix additively into the hardware
//! buffer, wrapping on overflow.

use vstd::arithmetic::div_mod::{
    lemma_div_is_ordered, lemma_div_multiples_vanish, lemma_fundamental_div_mod,
    lemma_fundamental_div_mod_converse, lemma_mod_bound,
};
use vstd::arithmetic::mul::lemma_mul_inequality;
use vstd::prelude::*;

verus! {

/// Truncating division (rounds toward zero), as machine division does.
/// Meaningful for positive divisors.
pub open spec fn trunc_div(a: int, b: int) -> int {
    if a >= 0 {
        a / b
    } else {
        -((-a) / b)
    }
}

/// A value reduced into the 16-bit two's-complement range, for `|v| < 2^16`.
pub open spec fn wrap16(v: int) -> int {
    if v > 0x7fff {
        v - 0x10000
    } else if v < -0x8000 {
        v + 0x10000
    } else {
        v
    }
}

/// A value reduced into the 32-bit two's-complement range, for `|v| < 2^32`.
pub open spec fn wrap32(v: int) -> int {
    if v > 0x7fff_ffff {
        v - 0x1_0000_0000
    } else if v < -0x8000_0000 {
        v + 0x1_0000_0000
    } else {
        v
    }
}

/// A logical 16-bit sample scaled to the 32-bit hardware range:
/// `x * i32::MAX / i16::MAX`, truncated, narrowed to 32 bits as a machine
/// cast would narrow it (only `x == i16::MIN` actually wraps).
pub open spec fn scale_16_to_32(x: int) -> int {
    wrap32(trunc_div(x * 0x7fff_ffff, 0x7fff))
}

/// A 32-bit hardware sample scaled to the logical 16-bit range:
/// `x * i16::MAX / i32::MAX`, truncated.  Never overflows 16 bits.
pub open spec fn scale_32_to_16(x: int) -> int {
    trunc_div(x * 0x7fff, 0x7fff_ffff)
}

/// `(a / b) * b` cannot exceed `a`, for nonnegative `a` and positive `b`.
proof fn lemma_div_times_divisor_le(a: int, b: int)
    requires
        0 <= a,
        0 < b,
    ensures
        0 <= (a / b) * b <= a,
        a < (a / b) * b + b,
{
    lemma_fundamental_div_mod(a, b);
    lemma_mod_bound(a, b);
    assert(b * (a / b) == (a / b) * b) by (nonlinear_arith);
}

/// Scaling the magnitude `m` of a logical sample up and back down loses at
/// most one unit and never moves away from zero.
proof fn lemma_magnitude_round_trip(m: int)
    requires
        0 <= m <= 0x7fff,
    ensures
        ({
            let u = (m * 0x7fff_ffff) / 0x7fff;
            let d = (u * 0x7fff) / 0x7fff_ffff;
            0 <= u <= 0x7fff_ffff && m - 1 <= d <= m
        }),
{
    let u = (m * 0x7fff_ffff) / 0x7fff;
    let d = (u * 0x7fff) / 0x7fff_ffff;
    lemma_mul_inequality(m, 0x7fff, 0x7fff_ffff);
    lemma_mul_inequality(0, m, 0x7fff_ffff);
    lemma_div_is_ordered(0, m * 0x7fff_ffff, 0x7fff);
    lemma_div_is_ordered(m * 0x7fff_ffff, 0x7fffint * 0x7fff_ffff, 0x7fff);
    assert((0x7fff * 0x7fff_ffff) / 0x7fff == 0x7fff_ffff) by {
        lemma_div_multiples_vanish(0x7fff_ffff, 0x7fff);
    }
    // Upper bound: u * 0x7fff <= m * 0x7fff_ffff, so d <= m.
    lemma_div_times_divisor_le(m * 0x7fff_ffff, 0x7fff);
    lemma_mul_inequality(0, u, 0x7fff);
    lemma_div_is_ordered(0, u * 0x7fff, 0x7fff_ffff);
    lemma_div_is_ordered(u * 0x7fff, m * 0x7fff_ffff, 0x7fff_ffff);
    assert((m * 0x7fff_ffff) / 0x7fff_ffff == m) by {
        lemma_div_multiples_vanish(m, 0x7fff_ffff);
    }
    // Lower bound: u * 0x7fff > m * 0x7fff_ffff - 0x7fff >= (m - 1) * 0x7fff_ffff,
    // so d >= m - 1.
    if m >= 1 {
        assert(u * 0x7fff >= (m - 1) * 0x7fff_ffff + 1);
        lemma_div_is_ordered((m - 1) * 0x7fff_ffff + 1, u * 0x7fff, 0x7fff_ffff);
        lemma_fundamental_div_mod_converse((m - 1) * 0x7fff_ffff + 1, 0x7fff_ffff, m - 1, 1);
    }
}

/// Convert a logical 16-bit sample to a 32-bit hardware sample.
pub fn convert_i16_to_i32(x: i16) -> (r: i32)
    ensures
        r as int == scale_16_to_32(x as int),
{
    if x >= 0 {
        let m: u64 = x as u64;
        let u: u64 = m * 0x7fff_ffff / 0x7fff;
        proof {
            lemma_mul_inequality(m as int, 0x7fff, 0x7fff_ffff);
            lemma_div_is_ordered(m as int * 0x7fff_ffff, 0x7fffint * 0x7fff_ffff, 0x7fff);
            lemma_div_multiples_vanish(0x7fff_ffff, 0x7fff);
            lemma_mul_inequality(0, m as int, 0x7fff_ffff);
            lemma_div_is_ordered(0, m as int * 0x7fff_ffff, 0x7fff);
        }
        u as i32
    } else {
        let m: u64 = (-(x as i64)) as u64;
        let u: u64 = m * 0x7fff_ffff / 0x7fff;
        proof {
            assert(m as int * 0x7fff_ffff == -((x as int) * 0x7fff_ffff));
            lemma_mul_inequality(m as int, 0x8000, 0x7fff_ffff);
            lemma_div_is_ordered(m as int * 0x7fff_ffff, 0x8000int * 0x7fff_ffff, 0x7fff);
            lemma_mul_inequality(1, m as int, 0x7fff_ffff);
            lemma_div_is_ordered(0x7fff_ffff, m as int * 0x7fff_ffff, 0x7fff);
        }
        if u <= 0x8000_0000 {
            (-(u as i64)) as i32
        } else {
            (0x1_0000_0000 - u as i64) as i32
        }
    }
}

/// Convert a 32-bit hardware sample to a logical 16-bit sample.
pub fn convert_i32_to_i16(x: i32) -> (r: i16)
    ensures
        r as int == scale_32_to_16(x as int),
        -0x7fff <= r as int <= 0x7fff,
{
    if x >= 0 {
        let m: u64 = x as u64;
        let u: u64 = m * 0x7fff / 0x7fff_ffff;
        proof {
            lemma_mul_inequality(m as int, 0x8000_0000, 0x7fff);
            lemma_div_is_ordered(m as int * 0x7fff, 0x8000_0000int * 0x7fff, 0x7fff_ffff);
            lemma_mul_inequality(0, m as int, 0x7fff);
            lemma_div_is_ordered(0, m as int * 0x7fff, 0x7fff_ffff);
        }
        u as i16
    } else {
        let m: u64 = (-(x as i64)) as u64;
        let u: u64 = m * 0x7fff / 0x7fff_ffff;
        proof {
            assert(m as int * 0x7fff == -((x as int) * 0x7fff));
            lemma_mul_inequality(m as int, 0x8000_0000, 0x7fff);
            lemma_div_is_ordered(m as int * 0x7fff, 0x8000_0000int * 0x7fff, 0x7fff_ffff);
            lemma_mul_inequality(0, m as int, 0x7fff);
            lemma_div_is_ordered(0, m as int * 0x7fff, 0x7fff_ffff);
        }
        (-(u as i64)) as i16
    }
}

/// Add two 16-bit samples, wrapping on overflow as hardware accumulation does.
pub fn mix_i16(a: i16, b: i16) -> (r: i16)
    ensures
        r as int == wrap16(a as int + b as int),
{
    let s: i32 = a as i32 + b as i32;
    if s > 0x7fff {
        (s - 0x10000) as i16
    } else if s < -0x8000 {
        (s + 0x10000) as i16
    } else {
        s as i16
    }
}

/// Add two 32-bit samples, wrapping on overflow as hardware accumulation does.
pub fn mix_i32(a: i32, b: i32) -> (r: i32)
    ensures
        r as int == wrap32(a as int + b as int),
{
    let s: i64 = a as i64 + b as i64;
    if s > 0x7fff_ffff {
        (s - 0x1_0000_0000) as i32
    } else if s < -0x8000_0000 {
        (s + 0x1_0000_0000) as i32
    } else {
        s as i32
    }
}

/// Scaling a logical 16-bit sample up to the 32-bit hardware range and back
/// reproduces it within one least significant bit, truncating toward zero.
/// The one 16-bit value excluded is `i16::MIN`, whose scaled image does not
/// fit in 32 bits and wraps.
pub proof fn lemma_scale_round_trip(x: int)
    requires
        -0x7fff <= x <= 0x7fff,
    ensures
        x >= 0 ==> x - 1 <= scale_32_to_16(scale_16_to_32(x)) <= x,
        x < 0 ==> x <= scale_32_to_16(scale_16_to_32(x)) <= x + 1,
{
    if x >= 0 {
        lemma_magnitude_round_trip(x);
    } else {
        let m = -x;
        lemma_magnitude_round_trip(m);
        let u = (m * 0x7fff_ffff) / 0x7fff;
        assert(x * 0x7fff_ffff == -(m * 0x7fff_ffff));
        assert(scale_16_to_32(x) == -u);
        assert((-u) * 0x7fff == -(u * 0x7fff));
        assert(scale_32_to_16(-u) == -((u * 0x7fff) / 0x7fff_ffff));
    }
}

} // verus!
