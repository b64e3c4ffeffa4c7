//! 4x4 fixed-point matrices and axis-aligned rectangles.

use vstd::prelude::*;
use vstd::arithmetic::mul::{lemma_mul_is_associative, lemma_mul_is_distributive_add_other_way};
use crate::fx::{
    div_trunc, fx_bounded, lemma_abs_mul_le, lemma_div_trunc_exact, Fx, COORD_MAX, ENTRY_MAX,
    FX_ONE,
};

verus! {

/// A 4x4 matrix of fixed-point numbers, row-major: `mRC` is the entry in row
/// `R`, column `C`, as a bit pattern with scale 65536.
#[derive(Clone, Copy, PartialEq, Eq, Structural, Debug)]
pub struct Mat4 {
    pub m00: i64, pub m01: i64, pub m02: i64, pub m03: i64,
    pub m10: i64, pub m11: i64, pub m12: i64, pub m13: i64,
    pub m20: i64, pub m21: i64, pub m22: i64, pub m23: i64,
    pub m30: i64, pub m31: i64, pub m32: i64, pub m33: i64,
}

impl Mat4 {
    /// Entry in row `i`, column `j`, as a mathematical integer.
    pub open spec fn e(self, i: int, j: int) -> int {
        if i == 0 {
            if j == 0 { self.m00 as int } else if j == 1 { self.m01 as int }
            else if j == 2 { self.m02 as int } else { self.m03 as int }
        } else if i == 1 {
            if j == 0 { self.m10 as int } else if j == 1 { self.m11 as int }
            else if j == 2 { self.m12 as int } else { self.m13 as int }
        } else if i == 2 {
            if j == 0 { self.m20 as int } else if j == 1 { self.m21 as int }
            else if j == 2 { self.m22 as int } else { self.m23 as int }
        } else {
            if j == 0 { self.m30 as int } else if j == 1 { self.m31 as int }
            else if j == 2 { self.m32 as int } else { self.m33 as int }
        }
    }

    /// All entries are small enough to be multiplied: the precondition of
    /// [`Mat4::mul`].
    pub open spec fn wf(self) -> bool {
        &&& -ENTRY_MAX <= self.m00 <= ENTRY_MAX
        &&& -ENTRY_MAX <= self.m01 <= ENTRY_MAX
        &&& -ENTRY_MAX <= self.m02 <= ENTRY_MAX
        &&& -ENTRY_MAX <= self.m03 <= ENTRY_MAX
        &&& -ENTRY_MAX <= self.m10 <= ENTRY_MAX
        &&& -ENTRY_MAX <= self.m11 <= ENTRY_MAX
        &&& -ENTRY_MAX <= self.m12 <= ENTRY_MAX
        &&& -ENTRY_MAX <= self.m13 <= ENTRY_MAX
        &&& -ENTRY_MAX <= self.m20 <= ENTRY_MAX
        &&& -ENTRY_MAX <= self.m21 <= ENTRY_MAX
        &&& -ENTRY_MAX <= self.m22 <= ENTRY_MAX
        &&& -ENTRY_MAX <= self.m23 <= ENTRY_MAX
        &&& -ENTRY_MAX <= self.m30 <= ENTRY_MAX
        &&& -ENTRY_MAX <= self.m31 <= ENTRY_MAX
        &&& -ENTRY_MAX <= self.m32 <= ENTRY_MAX
        &&& -ENTRY_MAX <= self.m33 <= ENTRY_MAX
    }

    /// The identity matrix.
    pub fn identity() -> (r: Mat4)
        ensures
            r == mat4_identity(),
    {
        Mat4 {
            m00: FX_ONE, m01: 0, m02: 0, m03: 0,
            m10: 0, m11: FX_ONE, m12: 0, m13: 0,
            m20: 0, m21: 0, m22: FX_ONE, m23: 0,
            m30: 0, m31: 0, m32: 0, m33: FX_ONE,
        }
    }

    /// Standard row-by-column matrix product, each entry a fixed-point dot
    /// product truncated toward zero.
    pub fn mul(self, other: Mat4) -> (r: Mat4)
        requires
            self.wf(),
            other.wf(),
        ensures
            r == mat_mul_val(self, other),
    {
        let a = self;
        let b = other;
        let r00 = fx_dot4(a.m00, b.m00, a.m01, b.m10, a.m02, b.m20, a.m03, b.m30);
        let r01 = fx_dot4(a.m00, b.m01, a.m01, b.m11, a.m02, b.m21, a.m03, b.m31);
        let r02 = fx_dot4(a.m00, b.m02, a.m01, b.m12, a.m02, b.m22, a.m03, b.m32);
        let r03 = fx_dot4(a.m00, b.m03, a.m01, b.m13, a.m02, b.m23, a.m03, b.m33);
        let r10 = fx_dot4(a.m10, b.m00, a.m11, b.m10, a.m12, b.m20, a.m13, b.m30);
        let r11 = fx_dot4(a.m10, b.m01, a.m11, b.m11, a.m12, b.m21, a.m13, b.m31);
        let r12 = fx_dot4(a.m10, b.m02, a.m11, b.m12, a.m12, b.m22, a.m13, b.m32);
        let r13 = fx_dot4(a.m10, b.m03, a.m11, b.m13, a.m12, b.m23, a.m13, b.m33);
        let r20 = fx_dot4(a.m20, b.m00, a.m21, b.m10, a.m22, b.m20, a.m23, b.m30);
        let r21 = fx_dot4(a.m20, b.m01, a.m21, b.m11, a.m22, b.m21, a.m23, b.m31);
        let r22 = fx_dot4(a.m20, b.m02, a.m21, b.m12, a.m22, b.m22, a.m23, b.m32);
        let r23 = fx_dot4(a.m20, b.m03, a.m21, b.m13, a.m22, b.m23, a.m23, b.m33);
        let r30 = fx_dot4(a.m30, b.m00, a.m31, b.m10, a.m32, b.m20, a.m33, b.m30);
        let r31 = fx_dot4(a.m30, b.m01, a.m31, b.m11, a.m32, b.m21, a.m33, b.m31);
        let r32 = fx_dot4(a.m30, b.m02, a.m31, b.m12, a.m32, b.m22, a.m33, b.m32);
        let r33 = fx_dot4(a.m30, b.m03, a.m31, b.m13, a.m32, b.m23, a.m33, b.m33);
        Mat4 {
            m00: r00, m01: r01, m02: r02, m03: r03,
            m10: r10, m11: r11, m12: r12, m13: r13,
            m20: r20, m21: r21, m22: r22, m23: r23,
            m30: r30, m31: r31, m32: r32, m33: r33,
        }
    }
}

/// All entries of `m` are within `[-bound, bound]`.
pub open spec fn bounded_by(m: Mat4, bound: int) -> bool {
    forall|i: int, j: int| 0 <= i < 4 && 0 <= j < 4 ==> -bound <= #[trigger] m.e(i, j) <= bound
}

/// A matrix bounded within the multiplication range is well formed.
pub proof fn lemma_wf_from_bounded(m: Mat4, bound: int)
    requires
        bounded_by(m, bound),
        bound <= ENTRY_MAX,
    ensures
        m.wf(),
{
    assert(m.e(0, 0) == m.m00 as int && m.e(0, 1) == m.m01 as int && m.e(0, 2) == m.m02 as int
        && m.e(0, 3) == m.m03 as int);
    assert(m.e(1, 0) == m.m10 as int && m.e(1, 1) == m.m11 as int && m.e(1, 2) == m.m12 as int
        && m.e(1, 3) == m.m13 as int);
    assert(m.e(2, 0) == m.m20 as int && m.e(2, 1) == m.m21 as int && m.e(2, 2) == m.m22 as int
        && m.e(2, 3) == m.m23 as int);
    assert(m.e(3, 0) == m.m30 as int && m.e(3, 1) == m.m31 as int && m.e(3, 2) == m.m32 as int
        && m.e(3, 3) == m.m33 as int);
}

/// Field-by-field bounds give the entry-indexed bound.
pub proof fn lemma_bounded_from_fields(m: Mat4, bound: int)
    requires
        -bound <= m.m00 <= bound, -bound <= m.m01 <= bound,
        -bound <= m.m02 <= bound, -bound <= m.m03 <= bound,
        -bound <= m.m10 <= bound, -bound <= m.m11 <= bound,
        -bound <= m.m12 <= bound, -bound <= m.m13 <= bound,
        -bound <= m.m20 <= bound, -bound <= m.m21 <= bound,
        -bound <= m.m22 <= bound, -bound <= m.m23 <= bound,
        -bound <= m.m30 <= bound, -bound <= m.m31 <= bound,
        -bound <= m.m32 <= bound, -bound <= m.m33 <= bound,
    ensures
        bounded_by(m, bound),
{
}

/// Bounds on the operands bound the fixed-point product, and keep every
/// entry of [`mat_mul_val`] within `i64`, so its casts are exact.
pub proof fn lemma_mul_bounded(a: Mat4, b: Mat4, ba: int, bb: int)
    requires
        bounded_by(a, ba),
        bounded_by(b, bb),
        0 <= ba,
        0 <= bb,
        4 * ba * bb <= 0x4000_0000_0000_0000_0000,
    ensures
        bounded_by(mat_mul_val(a, b), (4 * ba * bb) / (FX_ONE as int)),
        forall|i: int, j: int| 0 <= i < 4 && 0 <= j < 4 ==> #[trigger] mat_mul_val(a, b).e(i, j)
            == mm(a, b, i, j),
{
    let cap = 4 * ba * bb;
    assert forall|i: int, j: int| 0 <= i < 4 && 0 <= j < 4 implies -(cap / (FX_ONE as int))
        <= #[trigger] mat_mul_val(a, b).e(i, j) <= cap / (FX_ONE as int) && mat_mul_val(
        a,
        b,
    ).e(i, j) == mm(a, b, i, j) by {
        crate::fx::lemma_abs_mul_le(a.e(i, 0), b.e(0, j), ba, bb);
        crate::fx::lemma_abs_mul_le(a.e(i, 1), b.e(1, j), ba, bb);
        crate::fx::lemma_abs_mul_le(a.e(i, 2), b.e(2, j), ba, bb);
        crate::fx::lemma_abs_mul_le(a.e(i, 3), b.e(3, j), ba, bb);
        let s = a.e(i, 0) * b.e(0, j) + a.e(i, 1) * b.e(1, j) + a.e(i, 2) * b.e(2, j) + a.e(i, 3)
            * b.e(3, j);
        assert(ba * bb + ba * bb + ba * bb + ba * bb == 4 * ba * bb) by (nonlinear_arith);
        crate::fx::lemma_div_trunc_bound(s, cap, FX_ONE as int);
        vstd::arithmetic::div_mod::lemma_div_is_ordered(
            cap,
            0x4000_0000_0000_0000_0000,
            FX_ONE as int,
        );
        vstd::arithmetic::div_mod::lemma_div_pos_is_pos(cap, FX_ONE as int);
    }
}

/// The identity matrix as a specification value.
pub open spec fn mat4_identity() -> Mat4 {
    Mat4 {
        m00: FX_ONE, m01: 0, m02: 0, m03: 0,
        m10: 0, m11: FX_ONE, m12: 0, m13: 0,
        m20: 0, m21: 0, m22: FX_ONE, m23: 0,
        m30: 0, m31: 0, m32: 0, m33: FX_ONE,
    }
}

/// Entry `(i, j)` of the fixed-point product of `a` and `b`, as a
/// mathematical integer.
pub open spec fn mm(a: Mat4, b: Mat4, i: int, j: int) -> int {
    div_trunc(
        a.e(i, 0) * b.e(0, j) + a.e(i, 1) * b.e(1, j) + a.e(i, 2) * b.e(2, j) + a.e(i, 3) * b.e(
            3,
            j,
        ),
        FX_ONE as int,
    )
}

/// The fixed-point product of `a` and `b`. For well-formed operands every
/// entry fits an `i64`, so the casts below do not wrap.
pub open spec fn mat_mul_val(a: Mat4, b: Mat4) -> Mat4 {
    Mat4 {
        m00: mm(a, b, 0, 0) as i64, m01: mm(a, b, 0, 1) as i64,
        m02: mm(a, b, 0, 2) as i64, m03: mm(a, b, 0, 3) as i64,
        m10: mm(a, b, 1, 0) as i64, m11: mm(a, b, 1, 1) as i64,
        m12: mm(a, b, 1, 2) as i64, m13: mm(a, b, 1, 3) as i64,
        m20: mm(a, b, 2, 0) as i64, m21: mm(a, b, 2, 1) as i64,
        m22: mm(a, b, 2, 2) as i64, m23: mm(a, b, 2, 3) as i64,
        m30: mm(a, b, 3, 0) as i64, m31: mm(a, b, 3, 1) as i64,
        m32: mm(a, b, 3, 2) as i64, m33: mm(a, b, 3, 3) as i64,
    }
}

/// Fixed-point dot product of four entry pairs, truncated toward zero.
pub(crate) fn fx_dot4(
    a0: i64, b0: i64, a1: i64, b1: i64, a2: i64, b2: i64, a3: i64, b3: i64,
) -> (r: i64)
    requires
        -ENTRY_MAX <= a0 <= ENTRY_MAX, -ENTRY_MAX <= b0 <= ENTRY_MAX,
        -ENTRY_MAX <= a1 <= ENTRY_MAX, -ENTRY_MAX <= b1 <= ENTRY_MAX,
        -ENTRY_MAX <= a2 <= ENTRY_MAX, -ENTRY_MAX <= b2 <= ENTRY_MAX,
        -ENTRY_MAX <= a3 <= ENTRY_MAX, -ENTRY_MAX <= b3 <= ENTRY_MAX,
    ensures
        r == div_trunc(a0 * b0 + a1 * b1 + a2 * b2 + a3 * b3, FX_ONE as int),
{
    proof {
        lemma_abs_mul_le(a0 as int, b0 as int, ENTRY_MAX as int, ENTRY_MAX as int);
        lemma_abs_mul_le(a1 as int, b1 as int, ENTRY_MAX as int, ENTRY_MAX as int);
        lemma_abs_mul_le(a2 as int, b2 as int, ENTRY_MAX as int, ENTRY_MAX as int);
        lemma_abs_mul_le(a3 as int, b3 as int, ENTRY_MAX as int, ENTRY_MAX as int);
    }
    let p0: i128 = (a0 as i128) * (b0 as i128);
    let p1: i128 = (a1 as i128) * (b1 as i128);
    let p2: i128 = (a2 as i128) * (b2 as i128);
    let p3: i128 = (a3 as i128) * (b3 as i128);
    crate::fx::div_bits_i128(p0 + p1 + p2 + p3)
}

/// Multiplying by the identity on either side returns the other operand
/// unchanged: the fixed-point rescaling is exact on identity rows.
pub proof fn lemma_identity_mul(m: Mat4)
    ensures
        mat_mul_val(mat4_identity(), m) == m,
        mat_mul_val(m, mat4_identity()) == m,
{
    let id = mat4_identity();
    assert forall|i: int, j: int| 0 <= i < 4 && 0 <= j < 4 implies mm(id, m, i, j) == m.e(i, j)
        && mm(m, id, i, j) == m.e(i, j) by {
        assert(id.e(i, 0) * m.e(0, j) + id.e(i, 1) * m.e(1, j) + id.e(i, 2) * m.e(2, j) + id.e(
            i,
            3,
        ) * m.e(3, j) == m.e(i, j) * (FX_ONE as int)) by (nonlinear_arith)
            requires
                id == mat4_identity(),
                forall|k: int| 0 <= k < 4 ==> id.e(k, k) == FX_ONE as int,
                forall|k: int, l: int| 0 <= k < 4 && 0 <= l < 4 && k != l ==> id.e(k, l) == 0,
        ;
        assert(m.e(i, 0) * id.e(0, j) + m.e(i, 1) * id.e(1, j) + m.e(i, 2) * id.e(2, j) + m.e(
            i,
            3,
        ) * id.e(3, j) == m.e(i, j) * (FX_ONE as int)) by (nonlinear_arith)
            requires
                id == mat4_identity(),
                forall|k: int| 0 <= k < 4 ==> id.e(k, k) == FX_ONE as int,
                forall|k: int, l: int| 0 <= k < 4 && 0 <= l < 4 && k != l ==> id.e(k, l) == 0,
        ;
        lemma_div_trunc_exact(m.e(i, j), FX_ONE as int);
    }
}

/// A 4x4 matrix of mathematical integers: the unrounded bit patterns that a
/// chain of fixed-point matrix products computes before each rescaling.
pub struct MatInts {
    pub m00: int, pub m01: int, pub m02: int, pub m03: int,
    pub m10: int, pub m11: int, pub m12: int, pub m13: int,
    pub m20: int, pub m21: int, pub m22: int, pub m23: int,
    pub m30: int, pub m31: int, pub m32: int, pub m33: int,
}

impl MatInts {
    /// Entry in row `i`, column `j`.
    pub open spec fn e(self, i: int, j: int) -> int {
        if i == 0 {
            if j == 0 { self.m00 } else if j == 1 { self.m01 }
            else if j == 2 { self.m02 } else { self.m03 }
        } else if i == 1 {
            if j == 0 { self.m10 } else if j == 1 { self.m11 }
            else if j == 2 { self.m12 } else { self.m13 }
        } else if i == 2 {
            if j == 0 { self.m20 } else if j == 1 { self.m21 }
            else if j == 2 { self.m22 } else { self.m23 }
        } else {
            if j == 0 { self.m30 } else if j == 1 { self.m31 }
            else if j == 2 { self.m32 } else { self.m33 }
        }
    }
}

/// The bit patterns of a fixed-point matrix, as mathematical integers.
pub open spec fn mat_ints(m: Mat4) -> MatInts {
    MatInts {
        m00: m.m00 as int, m01: m.m01 as int, m02: m.m02 as int, m03: m.m03 as int,
        m10: m.m10 as int, m11: m.m11 as int, m12: m.m12 as int, m13: m.m13 as int,
        m20: m.m20 as int, m21: m.m21 as int, m22: m.m22 as int, m23: m.m23 as int,
        m30: m.m30 as int, m31: m.m31 as int, m32: m.m32 as int, m33: m.m33 as int,
    }
}

/// Exact (unrounded) matrix product over mathematical integers.
pub open spec fn exact_mul(a: MatInts, b: MatInts) -> MatInts {
    MatInts {
        m00: exact_entry(a, b, 0, 0), m01: exact_entry(a, b, 0, 1),
        m02: exact_entry(a, b, 0, 2), m03: exact_entry(a, b, 0, 3),
        m10: exact_entry(a, b, 1, 0), m11: exact_entry(a, b, 1, 1),
        m12: exact_entry(a, b, 1, 2), m13: exact_entry(a, b, 1, 3),
        m20: exact_entry(a, b, 2, 0), m21: exact_entry(a, b, 2, 1),
        m22: exact_entry(a, b, 2, 2), m23: exact_entry(a, b, 2, 3),
        m30: exact_entry(a, b, 3, 0), m31: exact_entry(a, b, 3, 1),
        m32: exact_entry(a, b, 3, 2), m33: exact_entry(a, b, 3, 3),
    }
}

/// Entry `(i, j)` of the exact matrix product.
pub open spec fn exact_entry(a: MatInts, b: MatInts, i: int, j: int) -> int {
    a.e(i, 0) * b.e(0, j) + a.e(i, 1) * b.e(1, j) + a.e(i, 2) * b.e(2, j) + a.e(i, 3) * b.e(3, j)
}

/// The exact matrix product is associative. The executable fixed-point
/// product truncates each entry after every multiplication, so two chained
/// executable products agree with the exact ones up to that rounding.
pub proof fn lemma_exact_mul_assoc(a: MatInts, b: MatInts, c: MatInts)
    ensures
        exact_mul(exact_mul(a, b), c) == exact_mul(a, exact_mul(b, c)),
{
    assert forall|i: int, j: int| 0 <= i < 4 && 0 <= j < 4 implies exact_entry(
        exact_mul(a, b),
        c,
        i,
        j,
    ) == exact_entry(a, exact_mul(b, c), i, j) by {
        lemma_assoc_entry(
            a.e(i, 0), a.e(i, 1), a.e(i, 2), a.e(i, 3),
            b.e(0, 0), b.e(0, 1), b.e(0, 2), b.e(0, 3),
            b.e(1, 0), b.e(1, 1), b.e(1, 2), b.e(1, 3),
            b.e(2, 0), b.e(2, 1), b.e(2, 2), b.e(2, 3),
            b.e(3, 0), b.e(3, 1), b.e(3, 2), b.e(3, 3),
            c.e(0, j), c.e(1, j), c.e(2, j), c.e(3, j),
        );
    }
}

/// Associativity of one entry of a triple matrix product, written out over
/// the row of the left factor, the middle factor, and the column of the
/// right factor.
proof fn lemma_assoc_entry(
    a0: int, a1: int, a2: int, a3: int,
    b00: int, b01: int, b02: int, b03: int,
    b10: int, b11: int, b12: int, b13: int,
    b20: int, b21: int, b22: int, b23: int,
    b30: int, b31: int, b32: int, b33: int,
    c0: int, c1: int, c2: int, c3: int,
)
    ensures
        (a0 * b00 + a1 * b10 + a2 * b20 + a3 * b30) * c0
        + (a0 * b01 + a1 * b11 + a2 * b21 + a3 * b31) * c1
        + (a0 * b02 + a1 * b12 + a2 * b22 + a3 * b32) * c2
        + (a0 * b03 + a1 * b13 + a2 * b23 + a3 * b33) * c3
        == a0 * (b00 * c0 + b01 * c1 + b02 * c2 + b03 * c3)
        + a1 * (b10 * c0 + b11 * c1 + b12 * c2 + b13 * c3)
        + a2 * (b20 * c0 + b21 * c1 + b22 * c2 + b23 * c3)
        + a3 * (b30 * c0 + b31 * c1 + b32 * c2 + b33 * c3),
{
    lemma_row_times_scalar(a0, a1, a2, a3, b00, b10, b20, b30, c0);
    lemma_row_times_scalar(a0, a1, a2, a3, b01, b11, b21, b31, c1);
    lemma_row_times_scalar(a0, a1, a2, a3, b02, b12, b22, b32, c2);
    lemma_row_times_scalar(a0, a1, a2, a3, b03, b13, b23, b33, c3);
    assert(a0 * (b00 * c0 + b01 * c1 + b02 * c2 + b03 * c3) == a0 * (b00 * c0) + a0 * (b01 * c1)
        + a0 * (b02 * c2) + a0 * (b03 * c3)) by (nonlinear_arith);
    assert(a1 * (b10 * c0 + b11 * c1 + b12 * c2 + b13 * c3) == a1 * (b10 * c0) + a1 * (b11 * c1)
        + a1 * (b12 * c2) + a1 * (b13 * c3)) by (nonlinear_arith);
    assert(a2 * (b20 * c0 + b21 * c1 + b22 * c2 + b23 * c3) == a2 * (b20 * c0) + a2 * (b21 * c1)
        + a2 * (b22 * c2) + a2 * (b23 * c3)) by (nonlinear_arith);
    assert(a3 * (b30 * c0 + b31 * c1 + b32 * c2 + b33 * c3) == a3 * (b30 * c0) + a3 * (b31 * c1)
        + a3 * (b32 * c2) + a3 * (b33 * c3)) by (nonlinear_arith);
}

/// A four-term sum times a scalar distributes into four reassociated
/// products.
proof fn lemma_row_times_scalar(
    a0: int, a1: int, a2: int, a3: int,
    b0: int, b1: int, b2: int, b3: int,
    c: int,
)
    ensures
        (a0 * b0 + a1 * b1 + a2 * b2 + a3 * b3) * c == a0 * (b0 * c) + a1 * (b1 * c) + a2 * (b2
            * c) + a3 * (b3 * c),
{
    let s2 = a0 * b0 + a1 * b1;
    let s3 = s2 + a2 * b2;
    lemma_mul_is_distributive_add_other_way(c, s3, a3 * b3);
    lemma_mul_is_distributive_add_other_way(c, s2, a2 * b2);
    lemma_mul_is_distributive_add_other_way(c, a0 * b0, a1 * b1);
    lemma_mul_is_associative(a0, b0, c);
    lemma_mul_is_associative(a1, b1, c);
    lemma_mul_is_associative(a2, b2, c);
    lemma_mul_is_associative(a3, b3, c);
}

/// Every entry of `m` is a whole multiple of the fixed-point scale.
pub open spec fn whole_unit(m: Mat4) -> bool {
    forall|i: int, j: int| 0 <= i < 4 && 0 <= j < 4 ==> (#[trigger] m.e(i, j)) % (FX_ONE as int)
        == 0
}

/// On whole-unit operands the fixed-point product truncates nothing: each
/// result entry carries the exact product entry divided by the scale, and
/// is itself a whole unit.
pub proof fn lemma_mul_whole_unit(a: Mat4, b: Mat4, ba: int, bb: int)
    requires
        whole_unit(a),
        whole_unit(b),
        bounded_by(a, ba),
        bounded_by(b, bb),
        0 <= ba,
        0 <= bb,
        4 * ba * bb <= 0x4000_0000_0000_0000_0000,
    ensures
        whole_unit(mat_mul_val(a, b)),
        forall|i: int, j: int| 0 <= i < 4 && 0 <= j < 4 ==> (FX_ONE as int) * (
        #[trigger] mat_mul_val(a, b).e(i, j)) == exact_entry(mat_ints(a), mat_ints(b), i, j),
{
    let one = FX_ONE as int;
    lemma_mul_bounded(a, b, ba, bb);
    assert forall|i: int, j: int| 0 <= i < 4 && 0 <= j < 4 implies (
    #[trigger] mat_mul_val(a, b).e(i, j)) % one == 0 && one * mat_mul_val(a, b).e(i, j)
        == exact_entry(mat_ints(a), mat_ints(b), i, j) by {
        let t = lemma_whole_dot(
            a.e(i, 0), b.e(0, j), a.e(i, 1), b.e(1, j), a.e(i, 2), b.e(2, j), a.e(i, 3), b.e(
                3,
                j,
            ),
        );
        assert(exact_entry(mat_ints(a), mat_ints(b), i, j) == (one * t) * one);
        crate::fx::lemma_div_trunc_exact(one * t, one);
        assert(mm(a, b, i, j) == one * t);
        vstd::arithmetic::div_mod::lemma_mod_multiples_basic(t, one);
        assert((t * one) % one == 0);
        assert(one * t == t * one) by (nonlinear_arith);
    }
}

/// A dot product of whole-unit factors is the scale squared times an
/// integer; returns that integer.
proof fn lemma_whole_dot(
    a0: int, b0: int, a1: int, b1: int, a2: int, b2: int, a3: int, b3: int,
) -> (t: int)
    requires
        a0 % (FX_ONE as int) == 0, b0 % (FX_ONE as int) == 0,
        a1 % (FX_ONE as int) == 0, b1 % (FX_ONE as int) == 0,
        a2 % (FX_ONE as int) == 0, b2 % (FX_ONE as int) == 0,
        a3 % (FX_ONE as int) == 0, b3 % (FX_ONE as int) == 0,
    ensures
        a0 * b0 + a1 * b1 + a2 * b2 + a3 * b3 == ((FX_ONE as int) * t) * (FX_ONE as int),
{
    let one = FX_ONE as int;
    let t0 = lemma_whole_product(a0, b0);
    let t1 = lemma_whole_product(a1, b1);
    let t2 = lemma_whole_product(a2, b2);
    let t3 = lemma_whole_product(a3, b3);
    let t = t0 + t1 + t2 + t3;
    assert((one * t) * one == a0 * b0 + a1 * b1 + a2 * b2 + a3 * b3) by (nonlinear_arith)
        requires
            a0 * b0 == (one * t0) * one,
            a1 * b1 == (one * t1) * one,
            a2 * b2 == (one * t2) * one,
            a3 * b3 == (one * t3) * one,
            t == t0 + t1 + t2 + t3,
    ;
    t
}

/// The product of two multiples of the scale is the scale squared times an
/// integer; returns that integer.
proof fn lemma_whole_product(x: int, y: int) -> (t: int)
    requires
        x % (FX_ONE as int) == 0,
        y % (FX_ONE as int) == 0,
    ensures
        x * y == ((FX_ONE as int) * t) * (FX_ONE as int),
{
    let one = FX_ONE as int;
    vstd::arithmetic::div_mod::lemma_fundamental_div_mod(x, one);
    vstd::arithmetic::div_mod::lemma_fundamental_div_mod(y, one);
    let xq = x / one;
    let yq = y / one;
    assert(x * y == ((one * (xq * yq)) * one)) by (nonlinear_arith)
        requires
            x == one * xq,
            y == one * yq,
    ;
    xq * yq
}

/// Scaling a four-term dot product scales either side of each term.
proof fn lemma_scale_dot(
    s: int, x0: int, y0: int, x1: int, y1: int, x2: int, y2: int, x3: int, y3: int,
)
    ensures
        s * (x0 * y0 + x1 * y1 + x2 * y2 + x3 * y3) == (s * x0) * y0 + (s * x1) * y1 + (s * x2)
            * y2 + (s * x3) * y3,
        s * (x0 * y0 + x1 * y1 + x2 * y2 + x3 * y3) == x0 * (s * y0) + x1 * (s * y1) + x2 * (s
            * y2) + x3 * (s * y3),
{
    let p0 = x0 * y0;
    let p1 = x1 * y1;
    let p2 = x2 * y2;
    let p3 = x3 * y3;
    vstd::arithmetic::mul::lemma_mul_is_distributive_add(s, p0 + p1 + p2, p3);
    vstd::arithmetic::mul::lemma_mul_is_distributive_add(s, p0 + p1, p2);
    vstd::arithmetic::mul::lemma_mul_is_distributive_add(s, p0, p1);
    lemma_mul_is_associative(s, x0, y0);
    lemma_mul_is_associative(s, x1, y1);
    lemma_mul_is_associative(s, x2, y2);
    lemma_mul_is_associative(s, x3, y3);
    assert((s * x0) * y0 == x0 * (s * y0)) by (nonlinear_arith);
    assert((s * x1) * y1 == x1 * (s * y1)) by (nonlinear_arith);
    assert((s * x2) * y2 == x2 * (s * y2)) by (nonlinear_arith);
    assert((s * x3) * y3 == x3 * (s * y3)) by (nonlinear_arith);
}

/// Two matrices with equal entries are equal.
proof fn lemma_mat_eq_from_entries(x: Mat4, y: Mat4)
    requires
        forall|i: int, j: int| 0 <= i < 4 && 0 <= j < 4 ==> #[trigger] x.e(i, j) == #[trigger] y.e(
            i,
            j,
        ),
    ensures
        x == y,
{
    assert(x.e(0, 0) == y.e(0, 0) && x.e(0, 1) == y.e(0, 1) && x.e(0, 2) == y.e(0, 2) && x.e(
        0,
        3,
    ) == y.e(0, 3));
    assert(x.e(1, 0) == y.e(1, 0) && x.e(1, 1) == y.e(1, 1) && x.e(1, 2) == y.e(1, 2) && x.e(
        1,
        3,
    ) == y.e(1, 3));
    assert(x.e(2, 0) == y.e(2, 0) && x.e(2, 1) == y.e(2, 1) && x.e(2, 2) == y.e(2, 2) && x.e(
        2,
        3,
    ) == y.e(2, 3));
    assert(x.e(3, 0) == y.e(3, 0) && x.e(3, 1) == y.e(3, 1) && x.e(3, 2) == y.e(3, 2) && x.e(
        3,
        3,
    ) == y.e(3, 3));
}

/// The fixed-point matrix product is associative on matrices whose entries
/// are whole multiples of the scale, since no product entry is then
/// truncated. On general entries each product rounds as
/// [`lemma_mul_rounding`] bounds, and the two groupings can differ by that
/// rounding.
pub proof fn lemma_mul_assoc_whole_unit(a: Mat4, b: Mat4, c: Mat4)
    requires
        whole_unit(a),
        whole_unit(b),
        whole_unit(c),
        bounded_by(a, 0x4000_0000),
        bounded_by(b, 0x4000_0000),
        bounded_by(c, 0x4000_0000),
    ensures
        mat_mul_val(mat_mul_val(a, b), c) == mat_mul_val(a, mat_mul_val(b, c)),
{
    let one = FX_ONE as int;
    let ab = mat_mul_val(a, b);
    let bc = mat_mul_val(b, c);
    lemma_mul_whole_unit(a, b, 0x4000_0000, 0x4000_0000);
    lemma_mul_whole_unit(b, c, 0x4000_0000, 0x4000_0000);
    lemma_mul_bounded(a, b, 0x4000_0000, 0x4000_0000);
    lemma_mul_bounded(b, c, 0x4000_0000, 0x4000_0000);
    lemma_mul_whole_unit(ab, c, 0x4000_0000_0000, 0x4000_0000);
    lemma_mul_whole_unit(a, bc, 0x4000_0000, 0x4000_0000_0000);
    let lhs = mat_mul_val(ab, c);
    let rhs = mat_mul_val(a, bc);
    lemma_exact_mul_assoc(mat_ints(a), mat_ints(b), mat_ints(c));
    assert forall|i: int, j: int| 0 <= i < 4 && 0 <= j < 4 implies #[trigger] lhs.e(i, j)
        == #[trigger] rhs.e(i, j) by {
        lemma_scale_dot(
            one,
            ab.e(i, 0), c.e(0, j), ab.e(i, 1), c.e(1, j), ab.e(i, 2), c.e(2, j), ab.e(i, 3), c.e(
                3,
                j,
            ),
        );
        assert(one * exact_entry(mat_ints(ab), mat_ints(c), i, j) == exact_entry(
            exact_mul(mat_ints(a), mat_ints(b)),
            mat_ints(c),
            i,
            j,
        ));
        lemma_scale_dot(
            one,
            a.e(i, 0), bc.e(0, j), a.e(i, 1), bc.e(1, j), a.e(i, 2), bc.e(2, j), a.e(i, 3), bc.e(
                3,
                j,
            ),
        );
        assert(one * exact_entry(mat_ints(a), mat_ints(bc), i, j) == exact_entry(
            mat_ints(a),
            exact_mul(mat_ints(b), mat_ints(c)),
            i,
            j,
        ));
        assert((one * one) * lhs.e(i, j) == (one * one) * rhs.e(i, j)) by (nonlinear_arith)
            requires
                one * lhs.e(i, j) == exact_entry(mat_ints(ab), mat_ints(c), i, j),
                one * rhs.e(i, j) == exact_entry(mat_ints(a), mat_ints(bc), i, j),
                one * exact_entry(mat_ints(ab), mat_ints(c), i, j) == exact_entry(
                    exact_mul(mat_ints(a), mat_ints(b)),
                    mat_ints(c),
                    i,
                    j,
                ),
                one * exact_entry(mat_ints(a), mat_ints(bc), i, j) == exact_entry(
                    mat_ints(a),
                    exact_mul(mat_ints(b), mat_ints(c)),
                    i,
                    j,
                ),
                exact_entry(
                    exact_mul(mat_ints(a), mat_ints(b)),
                    mat_ints(c),
                    i,
                    j,
                ) == exact_entry(mat_ints(a), exact_mul(mat_ints(b), mat_ints(c)), i, j),
        ;
    }
    lemma_mat_eq_from_entries(lhs, rhs);
}

/// Each entry of the executable fixed-point product is the corresponding
/// exact (unrounded) product entry truncated by one rescaling: they differ
/// by less than one unit of the scale. Together with
/// [`lemma_exact_mul_assoc`] this bounds how far two chained executable
/// products can drift from either grouping of the exact triple product.
pub proof fn lemma_mul_rounding(a: Mat4, b: Mat4, i: int, j: int)
    requires
        0 <= i < 4,
        0 <= j < 4,
    ensures
        ({
            let exact = exact_entry(mat_ints(a), mat_ints(b), i, j);
            exact - FX_ONE < (FX_ONE as int) * mm(a, b, i, j) <= exact + FX_ONE - 1
        }),
{
    let exact = exact_entry(mat_ints(a), mat_ints(b), i, j);
    assert(mat_ints(a).e(i, 0) == a.e(i, 0) && mat_ints(a).e(i, 1) == a.e(i, 1) && mat_ints(
        a,
    ).e(i, 2) == a.e(i, 2) && mat_ints(a).e(i, 3) == a.e(i, 3));
    assert(mat_ints(b).e(0, j) == b.e(0, j) && mat_ints(b).e(1, j) == b.e(1, j) && mat_ints(
        b,
    ).e(2, j) == b.e(2, j) && mat_ints(b).e(3, j) == b.e(3, j));
    let one = FX_ONE as int;
    if exact >= 0 {
        vstd::arithmetic::div_mod::lemma_fundamental_div_mod(exact, one);
    } else {
        vstd::arithmetic::div_mod::lemma_fundamental_div_mod(-exact, one);
        assert(one * ((-exact) / one) == -(one * -((-exact) / one))) by (nonlinear_arith);
    }
}

/// An axis-aligned rectangle with fixed-point position and size.
#[derive(Clone, Copy, PartialEq, Eq, Structural, Debug)]
pub struct Rectangle {
    pub x: Fx,
    pub y: Fx,
    pub w: Fx,
    pub h: Fx,
}

/// Whether two rectangles touch or overlap: each one's span reaches the
/// other's start on both axes.
pub open spec fn rects_overlap(a: Rectangle, b: Rectangle) -> bool {
    &&& a.x.bits + a.w.bits >= b.x.bits
    &&& a.x.bits <= b.x.bits + b.w.bits
    &&& a.y.bits + a.h.bits >= b.y.bits
    &&& a.y.bits <= b.y.bits + b.h.bits
}

impl Rectangle {
    /// All fields within the coordinate range.
    pub open spec fn wf(self) -> bool {
        fx_bounded(self.x.bits as int) && fx_bounded(self.y.bits as int) && fx_bounded(
            self.w.bits as int,
        ) && fx_bounded(self.h.bits as int)
    }

    /// Builds a rectangle from position and size.
    pub fn new(x: Fx, y: Fx, w: Fx, h: Fx) -> (r: Rectangle)
        ensures
            r == (Rectangle { x, y, w, h }),
    {
        Rectangle { x, y, w, h }
    }

    /// Whether this rectangle touches or overlaps `other`.
    pub fn collides_with(&self, other: &Rectangle) -> (r: bool)
        requires
            self.wf(),
            other.wf(),
        ensures
            r == rects_overlap(*self, *other),
    {
        self.x.bits + self.w.bits >= other.x.bits && self.x.bits <= other.x.bits + other.w.bits
            && self.y.bits + self.h.bits >= other.y.bits && self.y.bits <= other.y.bits
            + other.h.bits
    }
}

} // verus!
