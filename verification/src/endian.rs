//! Byte-order normalization for integer hardware samples.
//!
//! Hardware encodes its integer samples either little- or big-endian.  The
//! engine works on values in its canonical order, which is little-endian, so
//! converting to or from a big-endian hardware stream reverses the bytes of
//! the value and converting to or from a little-endian stream is the identity.
//! Float encodings never pass through this codec: their byte order is
//! validated when the stream format is negotiated.

use vstd::arithmetic::div_mod::{
    lemma_fundamental_div_mod, lemma_fundamental_div_mod_converse, lemma_mod_bound,
};
use vstd::prelude::*;

verus! {

/// Byte order of an integer hardware sample encoding.
#[derive(Clone, Copy, PartialEq, Eq, Structural, Debug)]
pub enum Endian {
    Little,
    Big,
}

/// Two's-complement image of a 16-bit value in `[0, 2^16)`.
pub open spec fn bits16(x: int) -> int {
    if x >= 0 {
        x
    } else {
        x + 0x10000
    }
}

/// Inverse of `bits16` on `[0, 2^16)`.
pub open spec fn unbits16(u: int) -> int {
    if u >= 0x8000 {
        u - 0x10000
    } else {
        u
    }
}

/// The two bytes of a value in `[0, 2^16)`, exchanged.
pub open spec fn swap_bytes16(u: int) -> int {
    (u % 0x100) * 0x100 + u / 0x100
}

/// Two's-complement image of a 32-bit value in `[0, 2^32)`.
pub open spec fn bits32(x: int) -> int {
    if x >= 0 {
        x
    } else {
        x + 0x1_0000_0000
    }
}

/// Inverse of `bits32` on `[0, 2^32)`.
pub open spec fn unbits32(u: int) -> int {
    if u >= 0x8000_0000 {
        u - 0x1_0000_0000
    } else {
        u
    }
}

/// The four bytes of a value in `[0, 2^32)`, reversed: the 16-bit halves are
/// exchanged and the bytes of each half are exchanged.
pub open spec fn swap_bytes32(u: int) -> int {
    swap_bytes16(u % 0x1_0000) * 0x1_0000 + swap_bytes16(u / 0x1_0000)
}

/// A 16-bit value splits into its two bytes.
proof fn lemma_split16(u: int)
    requires
        0 <= u < 0x10000,
    ensures
        0 <= u % 0x100 < 0x100,
        0 <= u / 0x100 < 0x100,
        u == (u / 0x100) * 0x100 + u % 0x100,
{
    lemma_fundamental_div_mod(u, 0x100);
    lemma_mod_bound(u, 0x100);
}

/// Exchanging the bytes of a 16-bit value stays 16-bit and is involutive.
pub proof fn lemma_swap_bytes16_involutive(u: int)
    requires
        0 <= u < 0x10000,
    ensures
        0 <= swap_bytes16(u) < 0x10000,
        swap_bytes16(swap_bytes16(u)) == u,
{
    lemma_split16(u);
    let a = u % 0x100;
    let b = u / 0x100;
    let s = swap_bytes16(u);
    assert(s == a * 0x100 + b);
    lemma_fundamental_div_mod_converse(s, 0x100, a, b);
    assert(swap_bytes16(s) == b * 0x100 + a);
}

/// A 32-bit value splits into its two 16-bit halves.
proof fn lemma_split32(u: int)
    requires
        0 <= u < 0x1_0000_0000,
    ensures
        0 <= u % 0x1_0000 < 0x1_0000,
        0 <= u / 0x1_0000 < 0x1_0000,
        u == (u / 0x1_0000) * 0x1_0000 + u % 0x1_0000,
{
    lemma_fundamental_div_mod(u, 0x1_0000);
    lemma_mod_bound(u, 0x1_0000);
}

/// Reversing the bytes of a 32-bit value stays 32-bit and is involutive.
pub proof fn lemma_swap_bytes32_involutive(u: int)
    requires
        0 <= u < 0x1_0000_0000,
    ensures
        0 <= swap_bytes32(u) < 0x1_0000_0000,
        swap_bytes32(swap_bytes32(u)) == u,
{
    lemma_split32(u);
    let lo = u % 0x1_0000;
    let hi = u / 0x1_0000;
    lemma_swap_bytes16_involutive(lo);
    lemma_swap_bytes16_involutive(hi);
    let s = swap_bytes32(u);
    assert(s == swap_bytes16(lo) * 0x1_0000 + swap_bytes16(hi));
    lemma_fundamental_div_mod_converse(s, 0x1_0000, swap_bytes16(lo), swap_bytes16(hi));
    assert(swap_bytes32(s) == swap_bytes16(swap_bytes16(hi)) * 0x1_0000 + swap_bytes16(
        swap_bytes16(lo),
    ));
}

/// A fixed-width integer sample as the hardware stores it.
pub trait HardwareSample: Sized + Copy {
    /// The value with the order of its bytes reversed.
    spec fn swapped(self) -> Self;

    /// Reverse the byte order of the value.
    fn swap_bytes(self) -> (r: Self)
        ensures
            r == self.swapped(),
    ;

    /// Reversing the byte order twice restores the value.
    proof fn lemma_swap_involutive(self)
        ensures
            self.swapped().swapped() == self,
    ;
}

impl HardwareSample for i16 {
    open spec fn swapped(self) -> i16 {
        unbits16(swap_bytes16(bits16(self as int))) as i16
    }

    fn swap_bytes(self) -> (r: i16) {
        let u: u32 = if self >= 0 {
            self as u32
        } else {
            (self as i32 + 0x10000) as u32
        };
        proof {
            assert(u as int == bits16(self as int));
            lemma_split16(u as int);
        }
        let s: u32 = (u % 0x100) * 0x100 + u / 0x100;
        proof {
            assert(s as int == swap_bytes16(u as int));
            lemma_swap_bytes16_involutive(u as int);
        }
        if s >= 0x8000 {
            (s as i32 - 0x10000) as i16
        } else {
            s as i16
        }
    }

    proof fn lemma_swap_involutive(self) {
        let u = bits16(self as int);
        lemma_swap_bytes16_involutive(u);
        let s = swap_bytes16(u);
        assert(bits16(unbits16(s) as i16 as int) == s);
        assert(unbits16(u) == self as int);
    }
}

impl HardwareSample for i32 {
    open spec fn swapped(self) -> i32 {
        unbits32(swap_bytes32(bits32(self as int))) as i32
    }

    fn swap_bytes(self) -> (r: i32) {
        let u: u64 = if self >= 0 {
            self as u64
        } else {
            (self as i64 + 0x1_0000_0000) as u64
        };
        proof {
            assert(u as int == bits32(self as int));
            lemma_split32(u as int);
        }
        let lo: u64 = u % 0x1_0000;
        let hi: u64 = u / 0x1_0000;
        proof {
            lemma_split16(lo as int);
            lemma_split16(hi as int);
            lemma_swap_bytes16_involutive(lo as int);
            lemma_swap_bytes16_involutive(hi as int);
        }
        let slo: u64 = (lo % 0x100) * 0x100 + lo / 0x100;
        let shi: u64 = (hi % 0x100) * 0x100 + hi / 0x100;
        let s: u64 = slo * 0x1_0000 + shi;
        proof {
            assert(s as int == swap_bytes32(u as int));
            lemma_swap_bytes32_involutive(u as int);
        }
        if s >= 0x8000_0000 {
            (s as i64 - 0x1_0000_0000) as i32
        } else {
            s as i32
        }
    }

    proof fn lemma_swap_involutive(self) {
        let u = bits32(self as int);
        lemma_swap_bytes32_involutive(u);
        let s = swap_bytes32(u);
        assert(bits32(unbits32(s) as i32 as int) == s);
        assert(unbits32(u) == self as int);
    }
}

/// The value a sample takes in the hardware's byte order.
pub open spec fn to_endian_spec<T: HardwareSample>(sample: T, endian: Endian) -> T {
    match endian {
        Endian::Little => sample,
        Endian::Big => sample.swapped(),
    }
}

/// The canonical value of a sample read in the hardware's byte order.
pub open spec fn from_endian_spec<T: HardwareSample>(sample: T, endian: Endian) -> T {
    match endian {
        Endian::Little => sample,
        Endian::Big => sample.swapped(),
    }
}

/// Convert a sample from the engine's canonical byte order to the hardware's.
pub fn convert_endian_to<T: HardwareSample>(sample: T, endian: Endian) -> (r: T)
    ensures
        r == to_endian_spec(sample, endian),
{
    match endian {
        Endian::Little => sample,
        Endian::Big => sample.swap_bytes(),
    }
}

/// Convert a sample from the hardware's byte order to the engine's canonical one.
pub fn convert_endian_from<T: HardwareSample>(sample: T, endian: Endian) -> (r: T)
    ensures
        r == from_endian_spec(sample, endian),
{
    match endian {
        Endian::Little => sample,
        Endian::Big => sample.swap_bytes(),
    }
}

/// Writing a sample in either byte order and reading it back in the same
/// order restores the original value, for every integer sample width.
pub proof fn lemma_endian_round_trip<T: HardwareSample>(sample: T, endian: Endian)
    ensures
        from_endian_spec(to_endian_spec(sample, endian), endian) == sample,
{
    match endian {
        Endian::Little => {
        },
        Endian::Big => {
            sample.lemma_swap_involutive();
        },
    }
}

} // verus!
