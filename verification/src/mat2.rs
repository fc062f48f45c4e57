//! 2x2 matrices: two row vectors, row-major.

use vstd::prelude::*;
use crate::rat::{
    Rat, Ratg, lemma_eqv_trans, lemma_ops_wf_all, lemma_radd_congr, lemma_rsub_congr, norm_r,
    radd, rat_eqv, rat_fits, rat_wfg, rmul, rsub,
};
use crate::vec2d::{
    Vec2d, Vec2g, add2_rep, scale2_rep, v2_add, v2_add_fits, v2_eqv, v2_scale, v2_scale_fits,
    v2_wf, v2_zero,
};

verus! {

/// The mathematical model of a 2x2 matrix: two row models.
pub ghost struct Mat2g {
    pub r0: Vec2g,
    pub r1: Vec2g,
}

/// All entries have positive denominators.
pub open spec fn m2_wf(m: Mat2g) -> bool {
    v2_wf(m.r0) && v2_wf(m.r1)
}

/// Rowwise value equality.
pub open spec fn m2_eqv(a: Mat2g, b: Mat2g) -> bool {
    v2_eqv(a.r0, b.r0) && v2_eqv(a.r1, b.r1)
}

/// The determinant `a00*a11 - a01*a10`.
pub open spec fn det2_v(m: Mat2g) -> Ratg {
    rsub(rmul(m.r0.x, m.r1.y), rmul(m.r0.y, m.r1.x))
}

/// The representation the determinant computation stores.
pub open spec fn det2_rep(m: Mat2g) -> Ratg {
    norm_r(rsub(norm_r(rmul(m.r0.x, m.r1.y)), norm_r(rmul(m.r0.y, m.r1.x))))
}

/// Every intermediate of the determinant fits in a `Rat`.
pub open spec fn det2_fits(m: Mat2g) -> bool {
    &&& rat_fits(rmul(m.r0.x, m.r1.y))
    &&& rat_fits(rmul(m.r0.y, m.r1.x))
    &&& rat_fits(rsub(norm_r(rmul(m.r0.x, m.r1.y)), norm_r(rmul(m.r0.y, m.r1.x))))
}

/// One row of the true matrix product: the rows of `b` combined with the
/// entries of the row `a` of the left factor.
pub open spec fn m2_mul_row_v(a: Vec2g, b: Mat2g) -> Vec2g {
    v2_add(v2_scale(b.r0, a.x), v2_scale(b.r1, a.y))
}

/// The true matrix product: row `i` of the result is the linear combination
/// of the rows of `b` by the entries of row `i` of `a`, so that entry
/// `(i, j)` is the sum over `k` of `a[i][k] * b[k][j]`.
pub open spec fn m2_mul_v(a: Mat2g, b: Mat2g) -> Mat2g {
    Mat2g { r0: m2_mul_row_v(a.r0, b), r1: m2_mul_row_v(a.r1, b) }
}

/// Every intermediate of one product row fits in a `Rat`.
pub open spec fn m2_mul_row_fits(a: Vec2g, b: Mat2g) -> bool {
    &&& v2_scale_fits(b.r0, a.x)
    &&& v2_scale_fits(b.r1, a.y)
    &&& v2_add_fits(scale2_rep(b.r0, a.x), scale2_rep(b.r1, a.y))
}

/// Every intermediate of the matrix product fits in a `Rat`.
pub open spec fn m2_mul_fits(a: Mat2g, b: Mat2g) -> bool {
    m2_mul_row_fits(a.r0, b) && m2_mul_row_fits(a.r1, b)
}

/// A 2x2 matrix of exact rational entries, stored as two rows.
#[derive(Clone, Copy, Debug)]
pub struct Mat2 {
    pub row0: Vec2d,
    pub row1: Vec2d,
}

impl View for Mat2 {
    type V = Mat2g;

    open spec fn view(&self) -> Mat2g {
        Mat2g { r0: self.row0@, r1: self.row1@ }
    }
}

impl Mat2 {
    /// The matrix with the given rows.
    pub fn new(row0: Vec2d, row1: Vec2d) -> (r: Mat2)
        ensures
            r@ == (Mat2g { r0: row0@, r1: row1@ }),
    {
        Mat2 { row0, row1 }
    }

    /// The zero matrix.
    pub fn zero() -> (r: Mat2)
        ensures
            r@ == (Mat2g { r0: v2_zero(), r1: v2_zero() }),
    {
        Mat2 { row0: Vec2d::zero(), row1: Vec2d::zero() }
    }

    /// The determinant `a00*a11 - a01*a10`.
    pub fn determinant(self) -> (r: Rat)
        requires
            det2_fits(self@),
        ensures
            r@ == det2_rep(self@),
            rat_eqv(r@, det2_v(self@)),
            rat_wfg(det2_v(self@)),
    {
        proof {
            use_type_invariant(self.row0.x);
            use_type_invariant(self.row0.y);
            use_type_invariant(self.row1.x);
            use_type_invariant(self.row1.y);
        }
        let t1 = self.row0.x.mul(self.row1.y);
        let t2 = self.row0.y.mul(self.row1.x);
        let r = t1.sub(t2);
        proof {
            use_type_invariant(t1);
            use_type_invariant(t2);
            lemma_rsub_congr(t1@, rmul(self@.r0.x, self@.r1.y), t2@, rmul(self@.r0.y, self@.r1.x));
            lemma_eqv_trans(r@, rsub(t1@, t2@), det2_v(self@));
        }
        r
    }

    /// In-place rowwise sum.
    pub fn add_assign(&mut self, other: Mat2)
        requires
            v2_add_fits(old(self)@.r0, other@.r0),
            v2_add_fits(old(self)@.r1, other@.r1),
        ensures
            v2_eqv(final(self)@.r0, v2_add(old(self)@.r0, other@.r0)),
            v2_eqv(final(self)@.r1, v2_add(old(self)@.r1, other@.r1)),
    {
        self.row0 = self.row0.add(other.row0);
        self.row1 = self.row1.add(other.row1);
    }

    /// In-place matrix product: entry `(i, j)` of the result is the sum over
    /// `k` of `self[i][k] * other[k][j]`.
    pub fn mul_assign(&mut self, other: Mat2)
        requires
            m2_mul_fits(old(self)@, other@),
        ensures
            m2_eqv(final(self)@, m2_mul_v(old(self)@, other@)),
            v2_eqv(final(self)@.r0, m2_mul_row_v(old(self)@.r0, other@)),
            v2_eqv(final(self)@.r1, m2_mul_row_v(old(self)@.r1, other@)),
    {
        let r0 = mul2_row(self.row0, other);
        let r1 = mul2_row(self.row1, other);
        self.row0 = r0;
        self.row1 = r1;
    }
}

/// One row of the true 2x2 matrix product.
fn mul2_row(a: Vec2d, b: Mat2) -> (r: Vec2d)
    requires
        m2_mul_row_fits(a@, b@),
    ensures
        r@ == add2_rep(scale2_rep(b@.r0, a@.x), scale2_rep(b@.r1, a@.y)),
        v2_eqv(r@, m2_mul_row_v(a@, b@)),
{
    proof {
        use_type_invariant(a.x);
        use_type_invariant(a.y);
        use_type_invariant(b.row0.x);
        use_type_invariant(b.row0.y);
        use_type_invariant(b.row1.x);
        use_type_invariant(b.row1.y);
        lemma_ops_wf_all();
    }
    let t0 = b.row0.scale(a.x);
    let t1 = b.row1.scale(a.y);
    let r = t0.add(t1);
    proof {
        use_type_invariant(t0.x);
        use_type_invariant(t0.y);
        use_type_invariant(t1.x);
        use_type_invariant(t1.y);
        let g0 = v2_scale(b@.r0, a@.x);
        let g1 = v2_scale(b@.r1, a@.y);
        lemma_radd_congr(t0@.x, g0.x, t1@.x, g1.x);
        lemma_radd_congr(t0@.y, g0.y, t1@.y, g1.y);
        lemma_eqv_trans(r@.x, radd(t0@.x, t1@.x), radd(g0.x, g1.x));
        lemma_eqv_trans(r@.y, radd(t0@.y, t1@.y), radd(g0.y, g1.y));
    }
    r
}

impl PartialEq for Mat2 {
    /// Rowwise value equality.
    fn eq(&self, other: &Mat2) -> (r: bool) {
        self.row0 == other.row0 && self.row1 == other.row1
    }
}

impl vstd::std_specs::cmp::PartialEqSpecImpl for Mat2 {
    open spec fn obeys_eq_spec() -> bool {
        true
    }

    open spec fn eq_spec(&self, other: &Mat2) -> bool {
        m2_eqv(self@, other@)
    }
}

} // verus!
