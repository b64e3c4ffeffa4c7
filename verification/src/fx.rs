//! Fixed-point scalar arithmetic.
//!
//! Every world-space quantity in this crate (coordinates, scales, angles in
//! radians, colour channels, virtual viewport extents) is an [`Fx`]: a signed
//! fixed-point number whose value is `bits / 65536`. All arithmetic on these
//! quantities is exact integer arithmetic, so every contract in the crate can
//! state results exactly.

use vstd::prelude::*;
use vstd::arithmetic::div_mod::lemma_div_is_ordered;

verus! {

/// Number of fixed-point units in 1.0.
pub const FX_ONE: i64 = 65536;

/// Largest magnitude, in fixed-point bits, that a world-space coordinate,
/// scale factor, rotation angle or virtual viewport extent may have
/// (2^25 bits, i.e. 512.0 in world units), chosen so that every matrix a
/// frame composes stays within [`ENTRY_MAX`].
pub const COORD_MAX: i64 = 0x200_0000;

/// Largest magnitude, in fixed-point bits, that an entry of a matrix handed
/// to [`crate::utils::Mat4::mul`] may have (2^38 bits).
pub const ENTRY_MAX: i64 = 0x40_0000_0000;

/// Smallest virtual viewport extent, in fixed-point bits (1/256 of a world
/// unit), so that its reciprocal stays within matrix-entry bounds.
pub const VP_MIN: i64 = 256;

/// Division that truncates toward zero (the rounding used by all fixed-point
/// operations in this crate), for a positive divisor.
pub open spec fn div_trunc(a: int, d: int) -> int {
    if a >= 0 {
        a / d
    } else {
        -((-a) / d)
    }
}

/// The exact result, in bits, of the fixed-point product of two values given
/// in bits.
pub open spec fn fx_mul_bits(a: int, b: int) -> int {
    div_trunc(a * b, FX_ONE as int)
}

/// A signed fixed-point number with value `bits / 65536`.
#[derive(Clone, Copy, PartialEq, Eq, Structural, Debug)]
pub struct Fx {
    pub bits: i64,
}

/// Whether a bit pattern is within the coordinate range this crate's
/// transform pipeline admits.
pub open spec fn fx_bounded(bits: int) -> bool {
    -COORD_MAX <= bits <= COORD_MAX
}

impl Fx {
    /// Builds a fixed-point number directly from its bit pattern.
    pub fn from_bits(bits: i64) -> (r: Fx)
        ensures
            r.bits == bits,
    {
        Fx { bits }
    }

    /// The fixed-point representation of a small integer.
    pub fn from_int(v: i32) -> (r: Fx)
        ensures
            r.bits == v * FX_ONE,
    {
        Fx { bits: (v as i64) * FX_ONE }
    }

    /// Zero.
    pub fn zero() -> (r: Fx)
        ensures
            r.bits == 0,
    {
        Fx { bits: 0 }
    }

    /// One.
    pub fn one() -> (r: Fx)
        ensures
            r.bits == FX_ONE,
    {
        Fx { bits: FX_ONE }
    }

    /// Exact fixed-point addition.
    pub fn plus(self, other: Fx) -> (r: Fx)
        requires
            i64::MIN <= self.bits + other.bits <= i64::MAX,
        ensures
            r.bits == self.bits + other.bits,
    {
        Fx { bits: self.bits + other.bits }
    }

    /// Fixed-point multiplication, truncating toward zero.
    pub fn times(self, other: Fx) -> (r: Fx)
        requires
            -ENTRY_MAX <= self.bits <= ENTRY_MAX,
            -ENTRY_MAX <= other.bits <= ENTRY_MAX,
        ensures
            r.bits == fx_mul_bits(self.bits as int, other.bits as int),
    {
        Fx { bits: fx_mul_i64(self.bits, other.bits) }
    }

    /// Exact negation.
    pub fn negate(self) -> (r: Fx)
        requires
            self.bits != i64::MIN,
        ensures
            r.bits == -self.bits,
    {
        Fx { bits: -self.bits }
    }
}

/// Truncating division of a signed numerator by 65536, for numerators within
/// the range a four-term dot product of bounded matrix entries can reach.
pub(crate) fn div_bits_i128(a: i128) -> (r: i64)
    requires
        -0x4000_0000_0000_0000_0000 <= a <= 0x4000_0000_0000_0000_0000,
    ensures
        r == div_trunc(a as int, FX_ONE as int),
{
    if a >= 0 {
        let q: u128 = (a as u128) / 65536;
        proof {
            lemma_div_is_ordered(a as int, 0x4000_0000_0000_0000_0000, 65536);
            assert(0x4000_0000_0000_0000_0000int / 65536 < 0x8000_0000_0000_0000int);
            vstd::arithmetic::div_mod::lemma_div_pos_is_pos(a as int, 65536);
        }
        q as i64
    } else {
        let m: u128 = (-a) as u128;
        let q: u128 = m / 65536;
        proof {
            lemma_div_is_ordered(m as int, 0x4000_0000_0000_0000_0000, 65536);
            assert(0x4000_0000_0000_0000_0000int / 65536 < 0x8000_0000_0000_0000int);
            vstd::arithmetic::div_mod::lemma_div_pos_is_pos(m as int, 65536);
        }
        -(q as i64)
    }
}

/// Fixed-point product of two bit patterns of bounded magnitude.
pub(crate) fn fx_mul_i64(a: i64, b: i64) -> (r: i64)
    requires
        -ENTRY_MAX <= a <= ENTRY_MAX,
        -ENTRY_MAX <= b <= ENTRY_MAX,
    ensures
        r == fx_mul_bits(a as int, b as int),
{
    proof {
        lemma_abs_mul_le(a as int, b as int, ENTRY_MAX as int, ENTRY_MAX as int);
    }
    let p: i128 = (a as i128) * (b as i128);
    div_bits_i128(p)
}

/// The product of two numbers bounded in magnitude is bounded by the product
/// of the bounds.
pub proof fn lemma_abs_mul_le(a: int, b: int, ba: int, bb: int)
    requires
        -ba <= a <= ba,
        -bb <= b <= bb,
        0 <= ba,
        0 <= bb,
    ensures
        -(ba * bb) <= a * b <= ba * bb,
{
    assert(-(ba * bb) <= a * b <= ba * bb) by (nonlinear_arith)
        requires
            -ba <= a <= ba,
            -bb <= b <= bb,
            0 <= ba,
            0 <= bb,
    ;
}

/// Truncating division of an exact multiple recovers the factor.
pub proof fn lemma_div_trunc_exact(k: int, d: int)
    requires
        d > 0,
    ensures
        div_trunc(k * d, d) == k,
{
    if k >= 0 {
        assert(k * d >= 0) by (nonlinear_arith)
            requires
                k >= 0,
                d > 0,
        ;
        lemma_div_multiple(k, d);
    } else {
        assert(k * d < 0) by (nonlinear_arith)
            requires
                k < 0,
                d > 0,
        ;
        assert(-(k * d) == (-k) * d) by (nonlinear_arith);
        lemma_div_multiple(-k, d);
    }
}

/// An exact multiple divided by the factor's base.
proof fn lemma_div_multiple(k: int, d: int)
    requires
        k >= 0,
        d > 0,
    ensures
        (k * d) / d == k,
{
    assert((k * d) / d == k) by (nonlinear_arith)
        requires
            k >= 0,
            d > 0,
    ;
}

/// Truncating division is monotone in the magnitude of the numerator.
pub proof fn lemma_div_trunc_bound(a: int, bound: int, d: int)
    requires
        d > 0,
        0 <= bound,
        -bound <= a <= bound,
    ensures
        -(bound / d) <= div_trunc(a, d) <= bound / d,
{
    if a >= 0 {
        lemma_div_is_ordered(a, bound, d);
        vstd::arithmetic::div_mod::lemma_div_pos_is_pos(a, d);
    } else {
        lemma_div_is_ordered(-a, bound, d);
        vstd::arithmetic::div_mod::lemma_div_pos_is_pos(-a, d);
    }
}


} // verus!
