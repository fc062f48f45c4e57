//! 3x3 matrices: three row vectors, row-major, with determinant, minors,
//! cofactors and the adjugate (classical adjoint) inverse.

use vstd::prelude::*;
use crate::rat::{
    Rat, Ratg, lemma_eqv_trans, lemma_lev_congr, lemma_norm, lemma_ops_wf_all, lemma_radd_congr,
    lemma_rdiv_congr, lemma_rmul_congr, lemma_rneg_congr, lemma_rsub_congr, norm_r, radd, rat_eqv,
    rat_fits, rat_wfg, rdiv, rint, rmul, rneg, rsub,
};
use crate::vec3d::{
    Vec3d, Vec3g, add3_rep, dot3_fits, dot3_rep, dot3_v, scale3_rep, v3_add, v3_add_fits, v3_eqv,
    v3_scale, v3_scale_fits, v3_wf, v3_zero,
};
use crate::vec2d::{Vec2d, Vec2g};
use crate::mat2::{Mat2, Mat2g, det2_fits, det2_rep, det2_v};

verus! {

/// The mathematical model of a 3x3 matrix: three row models.
pub ghost struct Mat3g {
    pub r0: Vec3g,
    pub r1: Vec3g,
    pub r2: Vec3g,
}

/// All entries have positive denominators.
pub open spec fn m3_wf(m: Mat3g) -> bool {
    v3_wf(m.r0) && v3_wf(m.r1) && v3_wf(m.r2)
}

/// Rowwise value equality.
pub open spec fn m3_eqv(a: Mat3g, b: Mat3g) -> bool {
    v3_eqv(a.r0, b.r0) && v3_eqv(a.r1, b.r1) && v3_eqv(a.r2, b.r2)
}

/// The identity model.
pub open spec fn m3_ident() -> Mat3g {
    Mat3g {
        r0: Vec3g { x: rint(1), y: rint(0), z: rint(0) },
        r1: Vec3g { x: rint(0), y: rint(1), z: rint(0) },
        r2: Vec3g { x: rint(0), y: rint(0), z: rint(1) },
    }
}

/// The transpose: rows and columns swapped.
pub open spec fn transpose3_v(m: Mat3g) -> Mat3g {
    Mat3g {
        r0: Vec3g { x: m.r0.x, y: m.r1.x, z: m.r2.x },
        r1: Vec3g { x: m.r0.y, y: m.r1.y, z: m.r2.y },
        r2: Vec3g { x: m.r0.z, y: m.r1.z, z: m.r2.z },
    }
}

/// The trace: sum of the diagonal entries.
pub open spec fn trace3_v(m: Mat3g) -> Ratg {
    radd(radd(m.r0.x, m.r1.y), m.r2.z)
}

/// The representation the trace computation stores.
pub open spec fn trace3_rep(m: Mat3g) -> Ratg {
    norm_r(radd(norm_r(radd(m.r0.x, m.r1.y)), m.r2.z))
}

/// Every intermediate of the trace fits in a `Rat`.
pub open spec fn trace3_fits(m: Mat3g) -> bool {
    &&& rat_fits(radd(m.r0.x, m.r1.y))
    &&& rat_fits(radd(norm_r(radd(m.r0.x, m.r1.y)), m.r2.z))
}

/// The determinant, by expansion along the first row with 2x2 minors and
/// alternating signs.
pub open spec fn det3_v(m: Mat3g) -> Ratg {
    radd(
        rsub(
            rmul(m.r0.x, rsub(rmul(m.r1.y, m.r2.z), rmul(m.r1.z, m.r2.y))),
            rmul(m.r0.y, rsub(rmul(m.r1.x, m.r2.z), rmul(m.r1.z, m.r2.x))),
        ),
        rmul(m.r0.z, rsub(rmul(m.r1.x, m.r2.y), rmul(m.r1.y, m.r2.x))),
    )
}

/// The stored representation of one 2x2 minor determinant `p*q - r*s`.
pub open spec fn det2pair_rep(p: Ratg, q: Ratg, r: Ratg, s: Ratg) -> Ratg {
    norm_r(rsub(norm_r(rmul(p, q)), norm_r(rmul(r, s))))
}

/// The stored representations of the three first-row cofactor products.
pub open spec fn det3_p1_rep(m: Mat3g) -> Ratg {
    norm_r(rmul(m.r0.x, det2pair_rep(m.r1.y, m.r2.z, m.r1.z, m.r2.y)))
}

pub open spec fn det3_p2_rep(m: Mat3g) -> Ratg {
    norm_r(rmul(m.r0.y, det2pair_rep(m.r1.x, m.r2.z, m.r1.z, m.r2.x)))
}

pub open spec fn det3_p3_rep(m: Mat3g) -> Ratg {
    norm_r(rmul(m.r0.z, det2pair_rep(m.r1.x, m.r2.y, m.r1.y, m.r2.x)))
}

/// The representation the determinant computation stores.
pub open spec fn det3_rep(m: Mat3g) -> Ratg {
    norm_r(radd(norm_r(rsub(det3_p1_rep(m), det3_p2_rep(m))), det3_p3_rep(m)))
}

/// Every intermediate of one 2x2 minor determinant fits in a `Rat`.
pub open spec fn det2pair_fits(p: Ratg, q: Ratg, r: Ratg, s: Ratg) -> bool {
    &&& rat_fits(rmul(p, q))
    &&& rat_fits(rmul(r, s))
    &&& rat_fits(rsub(norm_r(rmul(p, q)), norm_r(rmul(r, s))))
}

/// Every intermediate of the determinant fits in a `Rat`.
pub open spec fn det3_fits(m: Mat3g) -> bool {
    &&& det2pair_fits(m.r1.y, m.r2.z, m.r1.z, m.r2.y)
    &&& det2pair_fits(m.r1.x, m.r2.z, m.r1.z, m.r2.x)
    &&& det2pair_fits(m.r1.x, m.r2.y, m.r1.y, m.r2.x)
    &&& rat_fits(rmul(m.r0.x, det2pair_rep(m.r1.y, m.r2.z, m.r1.z, m.r2.y)))
    &&& rat_fits(rmul(m.r0.y, det2pair_rep(m.r1.x, m.r2.z, m.r1.z, m.r2.x)))
    &&& rat_fits(rmul(m.r0.z, det2pair_rep(m.r1.x, m.r2.y, m.r1.y, m.r2.x)))
    &&& rat_fits(rsub(det3_p1_rep(m), det3_p2_rep(m)))
    &&& rat_fits(radd(norm_r(rsub(det3_p1_rep(m), det3_p2_rep(m))), det3_p3_rep(m)))
}

/// The 2x2 submatrix obtained by deleting row `i` and column `j`.
pub open spec fn minor3_v(m: Mat3g, i: int, j: int) -> Mat2g {
    let ra = if i == 0 {
        m.r1
    } else {
        m.r0
    };
    let rb = if i == 2 {
        m.r1
    } else {
        m.r2
    };
    Mat2g {
        r0: if j == 0 {
            Vec2g { x: ra.y, y: ra.z }
        } else if j == 1 {
            Vec2g { x: ra.x, y: ra.z }
        } else {
            Vec2g { x: ra.x, y: ra.y }
        },
        r1: if j == 0 {
            Vec2g { x: rb.y, y: rb.z }
        } else if j == 1 {
            Vec2g { x: rb.x, y: rb.z }
        } else {
            Vec2g { x: rb.x, y: rb.y }
        },
    }
}

/// The cofactor: the minor determinant with the checkerboard sign
/// `(-1)^(i+j)`.
pub open spec fn cof3_v(m: Mat3g, i: int, j: int) -> Ratg {
    if (i + j) % 2 == 0 {
        det2_v(minor3_v(m, i, j))
    } else {
        rneg(det2_v(minor3_v(m, i, j)))
    }
}

/// The representation the cofactor computation stores.
pub open spec fn cof3_rep(m: Mat3g, i: int, j: int) -> Ratg {
    if (i + j) % 2 == 0 {
        det2_rep(minor3_v(m, i, j))
    } else {
        rneg(det2_rep(minor3_v(m, i, j)))
    }
}

/// Every intermediate of the cofactor fits in a `Rat`.
pub open spec fn cof3_fits(m: Mat3g, i: int, j: int) -> bool {
    det2_fits(minor3_v(m, i, j))
}

/// The reciprocal of the stored determinant, as stored by `inverse`.
pub open spec fn invdet3_rep(m: Mat3g) -> Ratg {
    norm_r(rdiv(rint(1), det3_rep(m)))
}

/// The representation `inverse` returns: the transposed cofactor matrix
/// (the adjugate), scaled by the reciprocal of the determinant.
pub open spec fn inv3_rep(m: Mat3g) -> Mat3g {
    let id = invdet3_rep(m);
    Mat3g {
        r0: Vec3g {
            x: norm_r(rmul(cof3_rep(m, 0, 0), id)),
            y: norm_r(rmul(cof3_rep(m, 1, 0), id)),
            z: norm_r(rmul(cof3_rep(m, 2, 0), id)),
        },
        r1: Vec3g {
            x: norm_r(rmul(cof3_rep(m, 0, 1), id)),
            y: norm_r(rmul(cof3_rep(m, 1, 1), id)),
            z: norm_r(rmul(cof3_rep(m, 2, 1), id)),
        },
        r2: Vec3g {
            x: norm_r(rmul(cof3_rep(m, 0, 2), id)),
            y: norm_r(rmul(cof3_rep(m, 1, 2), id)),
            z: norm_r(rmul(cof3_rep(m, 2, 2), id)),
        },
    }
}

/// The exact value of the inverse: entry `(i, j)` is `cof(j, i) / det`.
pub open spec fn inv3_v(m: Mat3g) -> Mat3g {
    let id = rdiv(rint(1), det3_v(m));
    Mat3g {
        r0: Vec3g {
            x: rmul(cof3_v(m, 0, 0), id),
            y: rmul(cof3_v(m, 1, 0), id),
            z: rmul(cof3_v(m, 2, 0), id),
        },
        r1: Vec3g {
            x: rmul(cof3_v(m, 0, 1), id),
            y: rmul(cof3_v(m, 1, 1), id),
            z: rmul(cof3_v(m, 2, 1), id),
        },
        r2: Vec3g {
            x: rmul(cof3_v(m, 0, 2), id),
            y: rmul(cof3_v(m, 1, 2), id),
            z: rmul(cof3_v(m, 2, 2), id),
        },
    }
}

/// Every intermediate of `inverse` fits in a `Rat`.
pub open spec fn inv3_fits(m: Mat3g) -> bool {
    &&& det3_fits(m)
    &&& forall|i: int, j: int| 0 <= i < 3 && 0 <= j < 3 ==> #[trigger] cof3_fits(m, i, j)
    &&& rat_fits(rdiv(rint(1), det3_rep(m)))
    &&& forall|i: int, j: int|
        0 <= i < 3 && 0 <= j < 3 ==> rat_fits(rmul(#[trigger] cof3_rep(m, i, j), invdet3_rep(m)))
}

/// One row of the true matrix product: the linear combination of the rows
/// of `b` by the entries of the row `a` of the left factor.
pub open spec fn m3_mul_row_v(a: Vec3g, b: Mat3g) -> Vec3g {
    v3_add(v3_add(v3_scale(b.r0, a.x), v3_scale(b.r1, a.y)), v3_scale(b.r2, a.z))
}

/// The true matrix product: entry `(i, j)` of the result is the sum over `k`
/// of `a[i][k] * b[k][j]`.
pub open spec fn m3_mul_v(a: Mat3g, b: Mat3g) -> Mat3g {
    Mat3g { r0: m3_mul_row_v(a.r0, b), r1: m3_mul_row_v(a.r1, b), r2: m3_mul_row_v(a.r2, b) }
}

/// Every intermediate of one product row fits in a `Rat`.
pub open spec fn m3_mul_row_fits(a: Vec3g, b: Mat3g) -> bool {
    &&& v3_scale_fits(b.r0, a.x)
    &&& v3_scale_fits(b.r1, a.y)
    &&& v3_scale_fits(b.r2, a.z)
    &&& v3_add_fits(scale3_rep(b.r0, a.x), scale3_rep(b.r1, a.y))
    &&& v3_add_fits(
        add3_rep(scale3_rep(b.r0, a.x), scale3_rep(b.r1, a.y)),
        scale3_rep(b.r2, a.z),
    )
}

/// Every intermediate of the matrix product fits in a `Rat`.
pub open spec fn m3_mul_fits(a: Mat3g, b: Mat3g) -> bool {
    m3_mul_row_fits(a.r0, b) && m3_mul_row_fits(a.r1, b) && m3_mul_row_fits(a.r2, b)
}

/// A 3x3 matrix of exact rational entries, stored as three rows.
#[derive(Clone, Copy, Debug)]
pub struct Mat3 {
    pub row0: Vec3d,
    pub row1: Vec3d,
    pub row2: Vec3d,
}

impl View for Mat3 {
    type V = Mat3g;

    open spec fn view(&self) -> Mat3g {
        Mat3g { r0: self.row0@, r1: self.row1@, r2: self.row2@ }
    }
}

impl Mat3 {
    /// The matrix with the given rows.
    pub fn new(row0: Vec3d, row1: Vec3d, row2: Vec3d) -> (r: Mat3)
        ensures
            r@ == (Mat3g { r0: row0@, r1: row1@, r2: row2@ }),
    {
        Mat3 { row0, row1, row2 }
    }

    /// The zero matrix.
    pub fn zero() -> (r: Mat3)
        ensures
            r@ == (Mat3g { r0: v3_zero(), r1: v3_zero(), r2: v3_zero() }),
    {
        Mat3 { row0: Vec3d::zero(), row1: Vec3d::zero(), row2: Vec3d::zero() }
    }

    /// The identity matrix.
    pub fn identity() -> (r: Mat3)
        ensures
            r@ == m3_ident(),
    {
        Mat3 {
            row0: Vec3d::new(Rat::one(), Rat::zero(), Rat::zero()),
            row1: Vec3d::new(Rat::zero(), Rat::one(), Rat::zero()),
            row2: Vec3d::new(Rat::zero(), Rat::zero(), Rat::one()),
        }
    }

    /// The trace: sum of the diagonal entries.
    pub fn trace(&self) -> (r: Rat)
        requires
            trace3_fits(self@),
        ensures
            r@ == trace3_rep(self@),
            rat_eqv(r@, trace3_v(self@)),
    {
        proof {
            use_type_invariant(self.row0.x);
            use_type_invariant(self.row1.y);
            use_type_invariant(self.row2.z);
        }
        let s1 = self.row0.x.add(self.row1.y);
        let r = s1.add(self.row2.z);
        proof {
            use_type_invariant(s1);
            lemma_radd_congr(s1@, radd(self@.r0.x, self@.r1.y), self@.r2.z, self@.r2.z);
            lemma_eqv_trans(r@, radd(s1@, self@.r2.z), trace3_v(self@));
        }
        r
    }

    /// The determinant, by expansion along the first row.
    pub fn determinant(&self) -> (r: Rat)
        requires
            det3_fits(self@),
        ensures
            r@ == det3_rep(self@),
            rat_eqv(r@, det3_v(self@)),
            rat_wfg(det3_v(self@)),
    {
        proof {
            use_type_invariant(self.row0.x);
            use_type_invariant(self.row0.y);
            use_type_invariant(self.row0.z);
            use_type_invariant(self.row1.x);
            use_type_invariant(self.row1.y);
            use_type_invariant(self.row1.z);
            use_type_invariant(self.row2.x);
            use_type_invariant(self.row2.y);
            use_type_invariant(self.row2.z);
            lemma_ops_wf_all();
        }
        let m = self;
        let t1 = m.row1.y.mul(m.row2.z);
        let t2 = m.row1.z.mul(m.row2.y);
        let d1 = t1.sub(t2);
        let p1 = m.row0.x.mul(d1);
        let t3 = m.row1.x.mul(m.row2.z);
        let t4 = m.row1.z.mul(m.row2.x);
        let d2 = t3.sub(t4);
        let p2 = m.row0.y.mul(d2);
        let t5 = m.row1.x.mul(m.row2.y);
        let t6 = m.row1.y.mul(m.row2.x);
        let d3 = t5.sub(t6);
        let p3 = m.row0.z.mul(d3);
        let s = p1.sub(p2);
        let r = s.add(p3);
        proof {
            use_type_invariant(t1);
            use_type_invariant(t2);
            use_type_invariant(d1);
            use_type_invariant(p1);
            use_type_invariant(t3);
            use_type_invariant(t4);
            use_type_invariant(d2);
            use_type_invariant(p2);
            use_type_invariant(t5);
            use_type_invariant(t6);
            use_type_invariant(d3);
            use_type_invariant(p3);
            use_type_invariant(s);
            let g = self@;
            let e1 = rsub(rmul(g.r1.y, g.r2.z), rmul(g.r1.z, g.r2.y));
            let e2 = rsub(rmul(g.r1.x, g.r2.z), rmul(g.r1.z, g.r2.x));
            let e3 = rsub(rmul(g.r1.x, g.r2.y), rmul(g.r1.y, g.r2.x));
            lemma_rsub_congr(t1@, rmul(g.r1.y, g.r2.z), t2@, rmul(g.r1.z, g.r2.y));
            lemma_eqv_trans(d1@, rsub(t1@, t2@), e1);
            lemma_rmul_congr(g.r0.x, g.r0.x, d1@, e1);
            lemma_eqv_trans(p1@, rmul(g.r0.x, d1@), rmul(g.r0.x, e1));
            lemma_rsub_congr(t3@, rmul(g.r1.x, g.r2.z), t4@, rmul(g.r1.z, g.r2.x));
            lemma_eqv_trans(d2@, rsub(t3@, t4@), e2);
            lemma_rmul_congr(g.r0.y, g.r0.y, d2@, e2);
            lemma_eqv_trans(p2@, rmul(g.r0.y, d2@), rmul(g.r0.y, e2));
            lemma_rsub_congr(t5@, rmul(g.r1.x, g.r2.y), t6@, rmul(g.r1.y, g.r2.x));
            lemma_eqv_trans(d3@, rsub(t5@, t6@), e3);
            lemma_rmul_congr(g.r0.z, g.r0.z, d3@, e3);
            lemma_eqv_trans(p3@, rmul(g.r0.z, d3@), rmul(g.r0.z, e3));
            lemma_rsub_congr(p1@, rmul(g.r0.x, e1), p2@, rmul(g.r0.y, e2));
            lemma_eqv_trans(s@, rsub(p1@, p2@), rsub(rmul(g.r0.x, e1), rmul(g.r0.y, e2)));
            lemma_radd_congr(
                s@,
                rsub(rmul(g.r0.x, e1), rmul(g.r0.y, e2)),
                p3@,
                rmul(g.r0.z, e3),
            );
            lemma_eqv_trans(r@, radd(s@, p3@), det3_v(self@));
        }
        r
    }

    /// The transpose: rows and columns swapped.
    pub fn transpose(&self) -> (r: Mat3)
        ensures
            r@ == transpose3_v(self@),
    {
        Mat3 {
            row0: Vec3d::new(self.row0.x, self.row1.x, self.row2.x),
            row1: Vec3d::new(self.row0.y, self.row1.y, self.row2.y),
            row2: Vec3d::new(self.row0.z, self.row1.z, self.row2.z),
        }
    }

    /// The 2x2 submatrix obtained by deleting row `i` and column `j`.
    pub fn minor(&self, i: usize, j: usize) -> (r: Mat2)
        requires
            i < 3,
            j < 3,
        ensures
            r@ == minor3_v(self@, i as int, j as int),
    {
        let ra = if i == 0 {
            self.row1
        } else {
            self.row0
        };
        let rb = if i == 2 {
            self.row1
        } else {
            self.row2
        };
        let r0 = if j == 0 {
            Vec2d::new(ra.y, ra.z)
        } else if j == 1 {
            Vec2d::new(ra.x, ra.z)
        } else {
            Vec2d::new(ra.x, ra.y)
        };
        let r1 = if j == 0 {
            Vec2d::new(rb.y, rb.z)
        } else if j == 1 {
            Vec2d::new(rb.x, rb.z)
        } else {
            Vec2d::new(rb.x, rb.y)
        };
        Mat2::new(r0, r1)
    }

    /// The cofactor: the minor determinant with the sign `(-1)^(i+j)`.
    pub fn cofactor(&self, i: usize, j: usize) -> (r: Rat)
        requires
            i < 3,
            j < 3,
            cof3_fits(self@, i as int, j as int),
        ensures
            r@ == cof3_rep(self@, i as int, j as int),
            rat_eqv(r@, cof3_v(self@, i as int, j as int)),
            rat_wfg(cof3_v(self@, i as int, j as int)),
    {
        let mn = self.minor(i, j);
        let d = mn.determinant();
        proof {
            use_type_invariant(d);
        }
        if (i + j) % 2 == 0 {
            d
        } else {
            proof {
                lemma_rneg_congr(d@, det2_v(minor3_v(self@, i as int, j as int)));
            }
            d.neg()
        }
    }

    /// The inverse, by the adjugate method: every entry replaced by its
    /// cofactor, transposed, and scaled by the reciprocal of the determinant.
    /// Defined only for a nonsingular matrix.
    pub fn inverse(&self) -> (r: Mat3)
        requires
            det3_rep(self@).n != 0,
            inv3_fits(self@),
        ensures
            r@ == inv3_rep(self@),
            m3_eqv(r@, inv3_v(self@)),
    {
        let g = Ghost(self@);
        let det = self.determinant();
        let inv_det = Rat::from_int(1).div(det);
        proof {
            use_type_invariant(det);
            use_type_invariant(inv_det);
            lemma_ops_wf_all();
            lemma_lev_congr(det@, det3_v(g@), det@, det3_v(g@));
            lemma_norm(rdiv(rint(1), det@));
            lemma_rdiv_congr(rint(1), rint(1), det@, det3_v(g@));
            lemma_eqv_trans(inv_det@, rdiv(rint(1), det@), rdiv(rint(1), det3_v(g@)));
        }
        let c00 = self.cofactor(0, 0);
        let c01 = self.cofactor(0, 1);
        let c02 = self.cofactor(0, 2);
        let c10 = self.cofactor(1, 0);
        let c11 = self.cofactor(1, 1);
        let c12 = self.cofactor(1, 2);
        let c20 = self.cofactor(2, 0);
        let c21 = self.cofactor(2, 1);
        let c22 = self.cofactor(2, 2);
        let e00 = c00.mul(inv_det);
        let e01 = c10.mul(inv_det);
        let e02 = c20.mul(inv_det);
        let e10 = c01.mul(inv_det);
        let e11 = c11.mul(inv_det);
        let e12 = c21.mul(inv_det);
        let e20 = c02.mul(inv_det);
        let e21 = c12.mul(inv_det);
        let e22 = c22.mul(inv_det);
        proof {
            use_type_invariant(c00);
            use_type_invariant(c01);
            use_type_invariant(c02);
            use_type_invariant(c10);
            use_type_invariant(c11);
            use_type_invariant(c12);
            use_type_invariant(c20);
            use_type_invariant(c21);
            use_type_invariant(c22);
            let id = rdiv(rint(1), det3_v(g@));
            lemma_rmul_congr(c00@, cof3_v(g@, 0, 0), inv_det@, id);
            lemma_eqv_trans(e00@, rmul(c00@, inv_det@), rmul(cof3_v(g@, 0, 0), id));
            lemma_rmul_congr(c10@, cof3_v(g@, 1, 0), inv_det@, id);
            lemma_eqv_trans(e01@, rmul(c10@, inv_det@), rmul(cof3_v(g@, 1, 0), id));
            lemma_rmul_congr(c20@, cof3_v(g@, 2, 0), inv_det@, id);
            lemma_eqv_trans(e02@, rmul(c20@, inv_det@), rmul(cof3_v(g@, 2, 0), id));
            lemma_rmul_congr(c01@, cof3_v(g@, 0, 1), inv_det@, id);
            lemma_eqv_trans(e10@, rmul(c01@, inv_det@), rmul(cof3_v(g@, 0, 1), id));
            lemma_rmul_congr(c11@, cof3_v(g@, 1, 1), inv_det@, id);
            lemma_eqv_trans(e11@, rmul(c11@, inv_det@), rmul(cof3_v(g@, 1, 1), id));
            lemma_rmul_congr(c21@, cof3_v(g@, 2, 1), inv_det@, id);
            lemma_eqv_trans(e12@, rmul(c21@, inv_det@), rmul(cof3_v(g@, 2, 1), id));
            lemma_rmul_congr(c02@, cof3_v(g@, 0, 2), inv_det@, id);
            lemma_eqv_trans(e20@, rmul(c02@, inv_det@), rmul(cof3_v(g@, 0, 2), id));
            lemma_rmul_congr(c12@, cof3_v(g@, 1, 2), inv_det@, id);
            lemma_eqv_trans(e21@, rmul(c12@, inv_det@), rmul(cof3_v(g@, 1, 2), id));
            lemma_rmul_congr(c22@, cof3_v(g@, 2, 2), inv_det@, id);
            lemma_eqv_trans(e22@, rmul(c22@, inv_det@), rmul(cof3_v(g@, 2, 2), id));
        }
        Mat3 {
            row0: Vec3d::new(e00, e01, e02),
            row1: Vec3d::new(e10, e11, e12),
            row2: Vec3d::new(e20, e21, e22),
        }
    }

    /// Rowwise sum.
    pub fn add(self, other: Mat3) -> (r: Mat3)
        requires
            v3_add_fits(self@.r0, other@.r0),
            v3_add_fits(self@.r1, other@.r1),
            v3_add_fits(self@.r2, other@.r2),
        ensures
            v3_eqv(r@.r0, v3_add(self@.r0, other@.r0)),
            v3_eqv(r@.r1, v3_add(self@.r1, other@.r1)),
            v3_eqv(r@.r2, v3_add(self@.r2, other@.r2)),
    {
        Mat3 {
            row0: self.row0.add(other.row0),
            row1: self.row1.add(other.row1),
            row2: self.row2.add(other.row2),
        }
    }

    /// The matrix scaled by `s`.
    pub fn mul_scalar(self, s: Rat) -> (r: Mat3)
        requires
            v3_scale_fits(self@.r0, s@),
            v3_scale_fits(self@.r1, s@),
            v3_scale_fits(self@.r2, s@),
        ensures
            v3_eqv(r@.r0, v3_scale(self@.r0, s@)),
            v3_eqv(r@.r1, v3_scale(self@.r1, s@)),
            v3_eqv(r@.r2, v3_scale(self@.r2, s@)),
    {
        Mat3 {
            row0: self.row0.scale(s),
            row1: self.row1.scale(s),
            row2: self.row2.scale(s),
        }
    }

    /// The matrix-vector product: each output component is the dot product of
    /// the corresponding row with the input vector.
    pub fn mul_vec(self, v: Vec3d) -> (r: Vec3d)
        requires
            dot3_fits(self@.r0, v@),
            dot3_fits(self@.r1, v@),
            dot3_fits(self@.r2, v@),
        ensures
            r@.x == dot3_rep(self@.r0, v@) && rat_eqv(r@.x, dot3_v(self@.r0, v@)),
            r@.y == dot3_rep(self@.r1, v@) && rat_eqv(r@.y, dot3_v(self@.r1, v@)),
            r@.z == dot3_rep(self@.r2, v@) && rat_eqv(r@.z, dot3_v(self@.r2, v@)),
    {
        Vec3d { x: self.row0.dot(v), y: self.row1.dot(v), z: self.row2.dot(v) }
    }

    /// The matrix product: entry `(i, j)` of the result is the sum over `k`
    /// of `self[i][k] * other[k][j]`.
    pub fn mul_mat(self, other: Mat3) -> (r: Mat3)
        requires
            m3_mul_fits(self@, other@),
        ensures
            m3_eqv(r@, m3_mul_v(self@, other@)),
            v3_eqv(r@.r0, m3_mul_row_v(self@.r0, other@)),
            v3_eqv(r@.r1, m3_mul_row_v(self@.r1, other@)),
            v3_eqv(r@.r2, m3_mul_row_v(self@.r2, other@)),
    {
        Mat3 {
            row0: mul3_row(self.row0, other),
            row1: mul3_row(self.row1, other),
            row2: mul3_row(self.row2, other),
        }
    }
}

/// One row of the true 3x3 matrix product.
fn mul3_row(a: Vec3d, b: Mat3) -> (r: Vec3d)
    requires
        m3_mul_row_fits(a@, b@),
    ensures
        r@ == add3_rep(
            add3_rep(scale3_rep(b@.r0, a@.x), scale3_rep(b@.r1, a@.y)),
            scale3_rep(b@.r2, a@.z),
        ),
        v3_eqv(r@, m3_mul_row_v(a@, b@)),
{
    proof {
        use_type_invariant(a.x);
        use_type_invariant(a.y);
        use_type_invariant(a.z);
        use_type_invariant(b.row0.x);
        use_type_invariant(b.row0.y);
        use_type_invariant(b.row0.z);
        use_type_invariant(b.row1.x);
        use_type_invariant(b.row1.y);
        use_type_invariant(b.row1.z);
        use_type_invariant(b.row2.x);
        use_type_invariant(b.row2.y);
        use_type_invariant(b.row2.z);
        lemma_ops_wf_all();
    }
    let t0 = b.row0.scale(a.x);
    let t1 = b.row1.scale(a.y);
    let t2 = b.row2.scale(a.z);
    let s1 = t0.add(t1);
    let r = s1.add(t2);
    proof {
        use_type_invariant(t0.x);
        use_type_invariant(t0.y);
        use_type_invariant(t0.z);
        use_type_invariant(t1.x);
        use_type_invariant(t1.y);
        use_type_invariant(t1.z);
        use_type_invariant(t2.x);
        use_type_invariant(t2.y);
        use_type_invariant(t2.z);
        use_type_invariant(s1.x);
        use_type_invariant(s1.y);
        use_type_invariant(s1.z);
        let g0 = v3_scale(b@.r0, a@.x);
        let g1 = v3_scale(b@.r1, a@.y);
        let g2 = v3_scale(b@.r2, a@.z);
        lemma_radd_congr(t0@.x, g0.x, t1@.x, g1.x);
        lemma_radd_congr(t0@.y, g0.y, t1@.y, g1.y);
        lemma_radd_congr(t0@.z, g0.z, t1@.z, g1.z);
        lemma_eqv_trans(s1@.x, radd(t0@.x, t1@.x), radd(g0.x, g1.x));
        lemma_eqv_trans(s1@.y, radd(t0@.y, t1@.y), radd(g0.y, g1.y));
        lemma_eqv_trans(s1@.z, radd(t0@.z, t1@.z), radd(g0.z, g1.z));
        lemma_radd_congr(s1@.x, radd(g0.x, g1.x), t2@.x, g2.x);
        lemma_radd_congr(s1@.y, radd(g0.y, g1.y), t2@.y, g2.y);
        lemma_radd_congr(s1@.z, radd(g0.z, g1.z), t2@.z, g2.z);
        lemma_eqv_trans(r@.x, radd(s1@.x, t2@.x), radd(radd(g0.x, g1.x), g2.x));
        lemma_eqv_trans(r@.y, radd(s1@.y, t2@.y), radd(radd(g0.y, g1.y), g2.y));
        lemma_eqv_trans(r@.z, radd(s1@.z, t2@.z), radd(radd(g0.z, g1.z), g2.z));
    }
    r
}

impl PartialEq for Mat3 {
    /// Rowwise value equality.
    fn eq(&self, other: &Mat3) -> (r: bool) {
        self.row0 == other.row0 && self.row1 == other.row1 && self.row2 == other.row2
    }
}

impl vstd::std_specs::cmp::PartialEqSpecImpl for Mat3 {
    open spec fn obeys_eq_spec() -> bool {
        true
    }

    open spec fn eq_spec(&self, other: &Mat3) -> bool {
        m3_eqv(self@, other@)
    }
}

} // verus!
