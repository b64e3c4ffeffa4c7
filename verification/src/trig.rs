//! Fixed-point sine and cosine.
//!
//! Angles are fixed-point radians. An angle is reduced into `[0, 2*pi)`,
//! split into a quadrant and a remainder below a quarter turn, and the
//! remainder is fed to a truncated alternating series evaluated in exact
//! integer arithmetic, clamped into `[0, 1]`. The specification functions
//! below state that computation directly; every caller's contract goes
//! through them, so the executable code is proved to match them exactly.

use vstd::prelude::*;
use vstd::arithmetic::div_mod::{
    lemma_div_is_ordered, lemma_div_pos_is_pos, lemma_fundamental_div_mod,
    lemma_fundamental_div_mod_converse,
};
use vstd::arithmetic::mul::lemma_mul_inequality;
use crate::fx::{Fx, FX_ONE};

verus! {

/// One full turn (2*pi) in fixed-point radians, rounded to the nearest bit.
pub const TWO_PI: i64 = 411775;

/// A quarter turn (pi/2) in fixed-point radians, rounded to the nearest bit.
pub const HALF_PI: i64 = 102944;

/// An angle reduced into `[0, 2*pi)` by Euclidean remainder.
pub open spec fn angle_reduced(a: int) -> int {
    a % (TWO_PI as int)
}

/// Clamp a bit pattern into `[0, 1]` in fixed-point units.
pub open spec fn clamp_unit(v: int) -> int {
    if v < 0 {
        0
    } else if v > FX_ONE {
        FX_ONE as int
    } else {
        v
    }
}

/// Cosine on `[0, pi/2)`: the series `1 - x^2/2! + x^4/4! - x^6/6!` in
/// fixed point, clamped into `[0, 1]`.
pub open spec fn cos_quarter(t: int) -> int {
    let x2 = (t * t) / (FX_ONE as int);
    let x4 = (x2 * x2) / (FX_ONE as int);
    let x6 = (x4 * x2) / (FX_ONE as int);
    clamp_unit((FX_ONE as int) + x4 / 24 - (x2 / 2 + x6 / 720))
}

/// Sine on `[0, pi/2)`: the series `x - x^3/3! + x^5/5! - x^7/7!` in fixed
/// point, clamped into `[0, 1]`.
pub open spec fn sin_quarter(t: int) -> int {
    let x2 = (t * t) / (FX_ONE as int);
    let x3 = (x2 * t) / (FX_ONE as int);
    let x5 = (x3 * x2) / (FX_ONE as int);
    let x7 = (x5 * x2) / (FX_ONE as int);
    clamp_unit(t + x5 / 120 - (x3 / 6 + x7 / 5040))
}

/// Fixed-point cosine of an angle in fixed-point radians.
pub open spec fn fx_cos_spec(a: int) -> int {
    let r = angle_reduced(a);
    let q = r / (HALF_PI as int);
    let t = r - q * (HALF_PI as int);
    if q == 0 {
        cos_quarter(t)
    } else if q == 1 {
        -sin_quarter(t)
    } else if q == 2 {
        -cos_quarter(t)
    } else {
        sin_quarter(t)
    }
}

/// Fixed-point sine of an angle in fixed-point radians.
pub open spec fn fx_sin_spec(a: int) -> int {
    let r = angle_reduced(a);
    let q = r / (HALF_PI as int);
    let t = r - q * (HALF_PI as int);
    if q == 0 {
        sin_quarter(t)
    } else if q == 1 {
        cos_quarter(t)
    } else if q == 2 {
        -sin_quarter(t)
    } else {
        -cos_quarter(t)
    }
}

/// Reduce an angle into `[0, 2*pi)`.
fn reduce(a: i64) -> (r: u64)
    ensures
        r == angle_reduced(a as int),
        r < TWO_PI,
{
    if a >= 0 {
        (a as u64) % 411775
    } else {
        let m: u128 = ((-(a as i128)) as u128) % 411775;
        proof {
            let n = -(a as int);
            lemma_fundamental_div_mod(n, 411775);
            let qn = n / 411775;
            let mn = n % 411775;
            if mn == 0 {
                lemma_fundamental_div_mod_converse(a as int, 411775, -qn, 0);
            } else {
                assert(a as int == (-qn - 1) * 411775 + (411775 - mn)) by (nonlinear_arith)
                    requires
                        n == -(a as int),
                        n == 411775 * qn + mn,
                ;
                lemma_fundamental_div_mod_converse(a as int, 411775, -qn - 1, 411775 - mn);
            }
        }
        if m == 0 {
            0
        } else {
            411775 - (m as u64)
        }
    }
}

/// Evaluate the cosine series on a remainder below a quarter turn.
fn cos_q(t: u64) -> (r: i64)
    requires
        t < HALF_PI,
    ensures
        r == cos_quarter(t as int),
        0 <= r <= FX_ONE,
{
    proof {
        lemma_mul_inequality(t as int, 102943, t as int);
        lemma_mul_inequality(t as int, 102943, 102943);
    }
    let x2 = (t * t) / 65536;
    proof {
        lemma_div_is_ordered((t * t) as int, 102943int * 102943, 65536);
        lemma_div_pos_is_pos((t * t) as int, 65536);
        lemma_mul_inequality(x2 as int, 161701, x2 as int);
        lemma_mul_inequality(x2 as int, 161701, 161701);
    }
    let x4 = (x2 * x2) / 65536;
    proof {
        lemma_div_is_ordered((x2 * x2) as int, 161701int * 161701, 65536);
        lemma_div_pos_is_pos((x2 * x2) as int, 65536);
        lemma_mul_inequality(x4 as int, 398974, x2 as int);
        lemma_mul_inequality(x4 as int, 398974, 161701);
    }
    let x6 = (x4 * x2) / 65536;
    proof {
        lemma_div_is_ordered((x4 * x2) as int, 398974int * 161701, 65536);
        lemma_div_pos_is_pos((x4 * x2) as int, 65536);
    }
    let pos = 65536 + x4 / 24;
    let neg = x2 / 2 + x6 / 720;
    if pos >= neg {
        let d = pos - neg;
        if d > 65536 {
            65536
        } else {
            d as i64
        }
    } else {
        0
    }
}

/// Evaluate the sine series on a remainder below a quarter turn.
fn sin_q(t: u64) -> (r: i64)
    requires
        t < HALF_PI,
    ensures
        r == sin_quarter(t as int),
        0 <= r <= FX_ONE,
{
    proof {
        lemma_mul_inequality(t as int, 102943, t as int);
        lemma_mul_inequality(t as int, 102943, 102943);
    }
    let x2 = (t * t) / 65536;
    proof {
        lemma_div_is_ordered((t * t) as int, 102943int * 102943, 65536);
        lemma_div_pos_is_pos((t * t) as int, 65536);
        lemma_mul_inequality(x2 as int, 161701, t as int);
        lemma_mul_inequality(x2 as int, 161701, 102943);
    }
    let x3 = (x2 * t) / 65536;
    proof {
        lemma_div_is_ordered((x2 * t) as int, 161701int * 102943, 65536);
        lemma_div_pos_is_pos((x2 * t) as int, 65536);
        lemma_mul_inequality(x3 as int, 253997, x2 as int);
        lemma_mul_inequality(x3 as int, 253997, 161701);
    }
    let x5 = (x3 * x2) / 65536;
    proof {
        lemma_div_is_ordered((x3 * x2) as int, 253997int * 161701, 65536);
        lemma_div_pos_is_pos((x3 * x2) as int, 65536);
        lemma_mul_inequality(x5 as int, 626702, x2 as int);
        lemma_mul_inequality(x5 as int, 626702, 161701);
    }
    let x7 = (x5 * x2) / 65536;
    proof {
        lemma_div_is_ordered((x5 * x2) as int, 626702int * 161701, 65536);
        lemma_div_pos_is_pos((x5 * x2) as int, 65536);
    }
    let pos = t + x5 / 120;
    let neg = x3 / 6 + x7 / 5040;
    if pos >= neg {
        let d = pos - neg;
        if d > 65536 {
            65536
        } else {
            d as i64
        }
    } else {
        0
    }
}

/// Fixed-point cosine.
pub fn fx_cos(a: Fx) -> (r: Fx)
    ensures
        r.bits == fx_cos_spec(a.bits as int),
        -FX_ONE <= r.bits <= FX_ONE,
{
    let red = reduce(a.bits);
    let q = red / 102944;
    let t = red % 102944;
    proof {
        lemma_fundamental_div_mod(red as int, 102944);
        lemma_div_is_ordered(red as int, 411774, 102944);
        lemma_div_pos_is_pos(red as int, 102944);
    }
    if q == 0 {
        Fx { bits: cos_q(t) }
    } else if q == 1 {
        Fx { bits: -sin_q(t) }
    } else if q == 2 {
        Fx { bits: -cos_q(t) }
    } else {
        Fx { bits: sin_q(t) }
    }
}

/// Fixed-point sine.
pub fn fx_sin(a: Fx) -> (r: Fx)
    ensures
        r.bits == fx_sin_spec(a.bits as int),
        -FX_ONE <= r.bits <= FX_ONE,
{
    let red = reduce(a.bits);
    let q = red / 102944;
    let t = red % 102944;
    proof {
        lemma_fundamental_div_mod(red as int, 102944);
        lemma_div_is_ordered(red as int, 411774, 102944);
        lemma_div_pos_is_pos(red as int, 102944);
    }
    if q == 0 {
        Fx { bits: sin_q(t) }
    } else if q == 1 {
        Fx { bits: cos_q(t) }
    } else if q == 2 {
        Fx { bits: -sin_q(t) }
    } else {
        Fx { bits: -cos_q(t) }
    }
}

} // verus!
