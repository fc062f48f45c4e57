//! 4x4 matrices: four row vectors, row-major, with determinant, minors,
//! cofactors, the adjugate inverse, and the camera-style `orient` and
//! `lookat` builders.

use vstd::prelude::*;
use crate::rat::{
    Rat, Ratg, lemma_eqv_trans, lemma_lev_congr, lemma_norm, lemma_ops_wf_all, lemma_radd_congr,
    lemma_rdiv_congr, lemma_rmul_congr, lemma_rneg_congr, lemma_rsub_congr, norm_r, radd, rat_eqv,
    rat_fits, rat_wfg, rdiv, rint, rmul, rneg, rsub,
};
use crate::vec3d::{
    Vec3d, Vec3g, cross3_fits, cross3_rep, dot3_fits, dot3_rep, dot3_v, normalize3_fits,
    normalize3_rep, sub3_rep, v3_cross, v3_eqv, v3_sub, v3_sub_fits, v3_wf,
};
use crate::vec4d::{
    Vec4d, Vec4g, add4_rep, dot4_fits, dot4_rep, dot4_v, scale4_rep, v4_add, v4_add_fits, v4_eqv,
    v4_scale, v4_scale_fits, v4_wf, v4_zero,
};
use crate::mat3::{Mat3, Mat3g, det3_fits, det3_rep, det3_v};

verus! {

/// The mathematical model of a 4x4 matrix: four row models.
pub ghost struct Mat4g {
    pub r0: Vec4g,
    pub r1: Vec4g,
    pub r2: Vec4g,
    pub r3: Vec4g,
}

/// All entries have positive denominators.
pub open spec fn m4_wf(m: Mat4g) -> bool {
    v4_wf(m.r0) && v4_wf(m.r1) && v4_wf(m.r2) && v4_wf(m.r3)
}

/// Rowwise value equality.
pub open spec fn m4_eqv(a: Mat4g, b: Mat4g) -> bool {
    v4_eqv(a.r0, b.r0) && v4_eqv(a.r1, b.r1) && v4_eqv(a.r2, b.r2) && v4_eqv(a.r3, b.r3)
}

/// The identity model.
pub open spec fn m4_ident() -> Mat4g {
    Mat4g {
        r0: Vec4g { x: rint(1), y: rint(0), z: rint(0), w: rint(0) },
        r1: Vec4g { x: rint(0), y: rint(1), z: rint(0), w: rint(0) },
        r2: Vec4g { x: rint(0), y: rint(0), z: rint(1), w: rint(0) },
        r3: Vec4g { x: rint(0), y: rint(0), z: rint(0), w: rint(1) },
    }
}

/// The transpose: rows and columns swapped.
pub open spec fn transpose4_v(m: Mat4g) -> Mat4g {
    Mat4g {
        r0: Vec4g { x: m.r0.x, y: m.r1.x, z: m.r2.x, w: m.r3.x },
        r1: Vec4g { x: m.r0.y, y: m.r1.y, z: m.r2.y, w: m.r3.y },
        r2: Vec4g { x: m.r0.z, y: m.r1.z, z: m.r2.z, w: m.r3.z },
        r3: Vec4g { x: m.r0.w, y: m.r1.w, z: m.r2.w, w: m.r3.w },
    }
}

/// The trace: sum of the diagonal entries.
pub open spec fn trace4_v(m: Mat4g) -> Ratg {
    radd(radd(radd(m.r0.x, m.r1.y), m.r2.z), m.r3.w)
}

/// The representation the trace computation stores.
pub open spec fn trace4_rep(m: Mat4g) -> Ratg {
    norm_r(radd(norm_r(radd(norm_r(radd(m.r0.x, m.r1.y)), m.r2.z)), m.r3.w))
}

/// Every intermediate of the trace fits in a `Rat`.
pub open spec fn trace4_fits(m: Mat4g) -> bool {
    &&& rat_fits(radd(m.r0.x, m.r1.y))
    &&& rat_fits(radd(norm_r(radd(m.r0.x, m.r1.y)), m.r2.z))
    &&& rat_fits(radd(norm_r(radd(norm_r(radd(m.r0.x, m.r1.y)), m.r2.z)), m.r3.w))
}

/// A 4-row with the column `j` deleted.
pub open spec fn v4_drop(v: Vec4g, j: int) -> Vec3g {
    if j == 0 {
        Vec3g { x: v.y, y: v.z, z: v.w }
    } else if j == 1 {
        Vec3g { x: v.x, y: v.z, z: v.w }
    } else if j == 2 {
        Vec3g { x: v.x, y: v.y, z: v.w }
    } else {
        Vec3g { x: v.x, y: v.y, z: v.z }
    }
}

/// The 3x3 submatrix obtained by deleting row `i` and column `j`.
pub open spec fn minor4_v(m: Mat4g, i: int, j: int) -> Mat3g {
    let ra = if i == 0 {
        m.r1
    } else {
        m.r0
    };
    let rb = if i <= 1 {
        m.r2
    } else {
        m.r1
    };
    let rc = if i == 3 {
        m.r2
    } else {
        m.r3
    };
    Mat3g { r0: v4_drop(ra, j), r1: v4_drop(rb, j), r2: v4_drop(rc, j) }
}

/// The first-row expansion products of the determinant.
pub open spec fn det4_p0_rep(m: Mat4g) -> Ratg {
    norm_r(rmul(m.r0.x, det3_rep(minor4_v(m, 0, 0))))
}

pub open spec fn det4_p1_rep(m: Mat4g) -> Ratg {
    norm_r(rmul(m.r0.y, det3_rep(minor4_v(m, 0, 1))))
}

pub open spec fn det4_p2_rep(m: Mat4g) -> Ratg {
    norm_r(rmul(m.r0.z, det3_rep(minor4_v(m, 0, 2))))
}

pub open spec fn det4_p3_rep(m: Mat4g) -> Ratg {
    norm_r(rmul(m.r0.w, det3_rep(minor4_v(m, 0, 3))))
}

/// The representation the determinant computation stores.
pub open spec fn det4_rep(m: Mat4g) -> Ratg {
    norm_r(
        rsub(
            norm_r(radd(norm_r(rsub(det4_p0_rep(m), det4_p1_rep(m))), det4_p2_rep(m))),
            det4_p3_rep(m),
        ),
    )
}

/// The determinant, by expansion along the first row with alternating signs.
pub open spec fn det4_v(m: Mat4g) -> Ratg {
    rsub(
        radd(
            rsub(
                rmul(m.r0.x, det3_v(minor4_v(m, 0, 0))),
                rmul(m.r0.y, det3_v(minor4_v(m, 0, 1))),
            ),
            rmul(m.r0.z, det3_v(minor4_v(m, 0, 2))),
        ),
        rmul(m.r0.w, det3_v(minor4_v(m, 0, 3))),
    )
}

/// Every intermediate of the determinant fits in a `Rat`.
pub open spec fn det4_fits(m: Mat4g) -> bool {
    &&& det3_fits(minor4_v(m, 0, 0))
    &&& det3_fits(minor4_v(m, 0, 1))
    &&& det3_fits(minor4_v(m, 0, 2))
    &&& det3_fits(minor4_v(m, 0, 3))
    &&& rat_fits(rmul(m.r0.x, det3_rep(minor4_v(m, 0, 0))))
    &&& rat_fits(rmul(m.r0.y, det3_rep(minor4_v(m, 0, 1))))
    &&& rat_fits(rmul(m.r0.z, det3_rep(minor4_v(m, 0, 2))))
    &&& rat_fits(rmul(m.r0.w, det3_rep(minor4_v(m, 0, 3))))
    &&& rat_fits(rsub(det4_p0_rep(m), det4_p1_rep(m)))
    &&& rat_fits(radd(norm_r(rsub(det4_p0_rep(m), det4_p1_rep(m))), det4_p2_rep(m)))
    &&& rat_fits(
        rsub(
            norm_r(radd(norm_r(rsub(det4_p0_rep(m), det4_p1_rep(m))), det4_p2_rep(m))),
            det4_p3_rep(m),
        ),
    )
}

/// The cofactor: the minor determinant with the sign `(-1)^(i+j)`.
pub open spec fn cof4_v(m: Mat4g, i: int, j: int) -> Ratg {
    if (i + j) % 2 == 0 {
        det3_v(minor4_v(m, i, j))
    } else {
        rneg(det3_v(minor4_v(m, i, j)))
    }
}

/// The representation the cofactor computation stores.
pub open spec fn cof4_rep(m: Mat4g, i: int, j: int) -> Ratg {
    if (i + j) % 2 == 0 {
        det3_rep(minor4_v(m, i, j))
    } else {
        rneg(det3_rep(minor4_v(m, i, j)))
    }
}

/// Every intermediate of the cofactor fits in a `Rat`.
pub open spec fn cof4_fits(m: Mat4g, i: int, j: int) -> bool {
    det3_fits(minor4_v(m, i, j))
}

/// The reciprocal of the stored determinant, as stored by `inverse`.
pub open spec fn invdet4_rep(m: Mat4g) -> Ratg {
    norm_r(rdiv(rint(1), det4_rep(m)))
}

/// The representation `inverse` returns: the adjugate scaled by the
/// reciprocal of the determinant.
pub open spec fn inv4_rep(m: Mat4g) -> Mat4g {
    let id = invdet4_rep(m);
    Mat4g {
        r0: Vec4g {
            x: norm_r(rmul(cof4_rep(m, 0, 0), id)),
            y: norm_r(rmul(cof4_rep(m, 1, 0), id)),
            z: norm_r(rmul(cof4_rep(m, 2, 0), id)),
            w: norm_r(rmul(cof4_rep(m, 3, 0), id)),
        },
        r1: Vec4g {
            x: norm_r(rmul(cof4_rep(m, 0, 1), id)),
            y: norm_r(rmul(cof4_rep(m, 1, 1), id)),
            z: norm_r(rmul(cof4_rep(m, 2, 1), id)),
            w: norm_r(rmul(cof4_rep(m, 3, 1), id)),
        },
        r2: Vec4g {
            x: norm_r(rmul(cof4_rep(m, 0, 2), id)),
            y: norm_r(rmul(cof4_rep(m, 1, 2), id)),
            z: norm_r(rmul(cof4_rep(m, 2, 2), id)),
            w: norm_r(rmul(cof4_rep(m, 3, 2), id)),
        },
        r3: Vec4g {
            x: norm_r(rmul(cof4_rep(m, 0, 3), id)),
            y: norm_r(rmul(cof4_rep(m, 1, 3), id)),
            z: norm_r(rmul(cof4_rep(m, 2, 3), id)),
            w: norm_r(rmul(cof4_rep(m, 3, 3), id)),
        },
    }
}

/// The exact value of the inverse: entry `(i, j)` is `cof(j, i) / det`.
pub open spec fn inv4_v(m: Mat4g) -> Mat4g {
    let id = rdiv(rint(1), det4_v(m));
    Mat4g {
        r0: Vec4g {
            x: rmul(cof4_v(m, 0, 0), id),
            y: rmul(cof4_v(m, 1, 0), id),
            z: rmul(cof4_v(m, 2, 0), id),
            w: rmul(cof4_v(m, 3, 0), id),
        },
        r1: Vec4g {
            x: rmul(cof4_v(m, 0, 1), id),
            y: rmul(cof4_v(m, 1, 1), id),
            z: rmul(cof4_v(m, 2, 1), id),
            w: rmul(cof4_v(m, 3, 1), id),
        },
        r2: Vec4g {
            x: rmul(cof4_v(m, 0, 2), id),
            y: rmul(cof4_v(m, 1, 2), id),
            z: rmul(cof4_v(m, 2, 2), id),
            w: rmul(cof4_v(m, 3, 2), id),
        },
        r3: Vec4g {
            x: rmul(cof4_v(m, 0, 3), id),
            y: rmul(cof4_v(m, 1, 3), id),
            z: rmul(cof4_v(m, 2, 3), id),
            w: rmul(cof4_v(m, 3, 3), id),
        },
    }
}

/// Every intermediate of `inverse` fits in a `Rat`.
pub open spec fn inv4_fits(m: Mat4g) -> bool {
    &&& det4_fits(m)
    &&& forall|i: int, j: int| 0 <= i < 4 && 0 <= j < 4 ==> #[trigger] cof4_fits(m, i, j)
    &&& rat_fits(rdiv(rint(1), det4_rep(m)))
    &&& forall|i: int, j: int|
        0 <= i < 4 && 0 <= j < 4 ==> rat_fits(rmul(#[trigger] cof4_rep(m, i, j), invdet4_rep(m)))
}

/// The rows the `lookat` builder derives from eye position, target and up
/// vector: forward, then right, then the recomputed up.
pub open spec fn lookat_fwd_rep(pos: Vec3g, look: Vec3g) -> Vec3g {
    normalize3_rep(sub3_rep(pos, look))
}

pub open spec fn lookat_right_rep(pos: Vec3g, look: Vec3g, up: Vec3g) -> Vec3g {
    normalize3_rep(cross3_rep(up, lookat_fwd_rep(pos, look)))
}

pub open spec fn lookat_up_rep(pos: Vec3g, look: Vec3g, up: Vec3g) -> Vec3g {
    normalize3_rep(cross3_rep(lookat_right_rep(pos, look, up), lookat_fwd_rep(pos, look)))
}

/// Every intermediate of `lookat` fits in a `Rat`.
pub open spec fn lookat_fits(pos: Vec3g, look: Vec3g, up: Vec3g) -> bool {
    let f = lookat_fwd_rep(pos, look);
    let r = lookat_right_rep(pos, look, up);
    let u = lookat_up_rep(pos, look, up);
    &&& v3_sub_fits(pos, look)
    &&& normalize3_fits(sub3_rep(pos, look))
    &&& cross3_fits(up, f)
    &&& normalize3_fits(cross3_rep(up, f))
    &&& cross3_fits(r, f)
    &&& normalize3_fits(cross3_rep(r, f))
    &&& dot3_fits(pos, r)
    &&& dot3_fits(pos, u)
    &&& dot3_fits(pos, f)
}

/// One row of the true matrix product: the linear combination of the rows
/// of `b` by the entries of the row `a` of the left factor.
pub open spec fn m4_mul_row_v(a: Vec4g, b: Mat4g) -> Vec4g {
    v4_add(
        v4_add(v4_add(v4_scale(b.r0, a.x), v4_scale(b.r1, a.y)), v4_scale(b.r2, a.z)),
        v4_scale(b.r3, a.w),
    )
}

/// The true matrix product: entry `(i, j)` of the result is the sum over `k`
/// of `a[i][k] * b[k][j]`.
pub open spec fn m4_mul_v(a: Mat4g, b: Mat4g) -> Mat4g {
    Mat4g {
        r0: m4_mul_row_v(a.r0, b),
        r1: m4_mul_row_v(a.r1, b),
        r2: m4_mul_row_v(a.r2, b),
        r3: m4_mul_row_v(a.r3, b),
    }
}

/// Every intermediate of one product row fits in a `Rat`.
pub open spec fn m4_mul_row_fits(a: Vec4g, b: Mat4g) -> bool {
    &&& v4_scale_fits(b.r0, a.x)
    &&& v4_scale_fits(b.r1, a.y)
    &&& v4_scale_fits(b.r2, a.z)
    &&& v4_scale_fits(b.r3, a.w)
    &&& v4_add_fits(scale4_rep(b.r0, a.x), scale4_rep(b.r1, a.y))
    &&& v4_add_fits(
        add4_rep(scale4_rep(b.r0, a.x), scale4_rep(b.r1, a.y)),
        scale4_rep(b.r2, a.z),
    )
    &&& v4_add_fits(
        add4_rep(
            add4_rep(scale4_rep(b.r0, a.x), scale4_rep(b.r1, a.y)),
            scale4_rep(b.r2, a.z),
        ),
        scale4_rep(b.r3, a.w),
    )
}

/// Every intermediate of the matrix product fits in a `Rat`.
pub open spec fn m4_mul_fits(a: Mat4g, b: Mat4g) -> bool {
    &&& m4_mul_row_fits(a.r0, b)
    &&& m4_mul_row_fits(a.r1, b)
    &&& m4_mul_row_fits(a.r2, b)
    &&& m4_mul_row_fits(a.r3, b)
}

/// A 4x4 matrix of exact rational entries, stored as four rows.
#[derive(Clone, Copy, Debug)]
pub struct Mat4 {
    pub row0: Vec4d,
    pub row1: Vec4d,
    pub row2: Vec4d,
    pub row3: Vec4d,
}

impl View for Mat4 {
    type V = Mat4g;

    open spec fn view(&self) -> Mat4g {
        Mat4g { r0: self.row0@, r1: self.row1@, r2: self.row2@, r3: self.row3@ }
    }
}

impl Mat4 {
    /// The matrix with the given rows.
    pub fn new(row0: Vec4d, row1: Vec4d, row2: Vec4d, row3: Vec4d) -> (r: Mat4)
        ensures
            r@ == (Mat4g { r0: row0@, r1: row1@, r2: row2@, r3: row3@ }),
    {
        Mat4 { row0, row1, row2, row3 }
    }

    /// The zero matrix.
    pub fn zero() -> (r: Mat4)
        ensures
            r@ == (Mat4g { r0: v4_zero(), r1: v4_zero(), r2: v4_zero(), r3: v4_zero() }),
    {
        Mat4 {
            row0: Vec4d::new_zero(),
            row1: Vec4d::new_zero(),
            row2: Vec4d::new_zero(),
            row3: Vec4d::new_zero(),
        }
    }

    /// The identity matrix.
    pub fn identity() -> (r: Mat4)
        ensures
            r@ == m4_ident(),
    {
        Mat4 {
            row0: Vec4d::new(Rat::one(), Rat::zero(), Rat::zero(), Rat::zero()),
            row1: Vec4d::new(Rat::zero(), Rat::one(), Rat::zero(), Rat::zero()),
            row2: Vec4d::new(Rat::zero(), Rat::zero(), Rat::one(), Rat::zero()),
            row3: Vec4d::new(Rat::zero(), Rat::zero(), Rat::zero(), Rat::one()),
        }
    }

    /// The trace: sum of the diagonal entries.
    pub fn trace(&self) -> (r: Rat)
        requires
            trace4_fits(self@),
        ensures
            r@ == trace4_rep(self@),
            rat_eqv(r@, trace4_v(self@)),
    {
        proof {
            use_type_invariant(self.row0.x);
            use_type_invariant(self.row1.y);
            use_type_invariant(self.row2.z);
            use_type_invariant(self.row3.w);
        }
        let s1 = self.row0.x.add(self.row1.y);
        let s2 = s1.add(self.row2.z);
        let r = s2.add(self.row3.w);
        proof {
            use_type_invariant(s1);
            use_type_invariant(s2);
            lemma_radd_congr(s1@, radd(self@.r0.x, self@.r1.y), self@.r2.z, self@.r2.z);
            lemma_eqv_trans(
                s2@,
                radd(s1@, self@.r2.z),
                radd(radd(self@.r0.x, self@.r1.y), self@.r2.z),
            );
            lemma_radd_congr(
                s2@,
                radd(radd(self@.r0.x, self@.r1.y), self@.r2.z),
                self@.r3.w,
                self@.r3.w,
            );
            lemma_eqv_trans(r@, radd(s2@, self@.r3.w), trace4_v(self@));
        }
        r
    }

    /// The transpose: rows and columns swapped.
    pub fn transpose(&self) -> (r: Mat4)
        ensures
            r@ == transpose4_v(self@),
    {
        Mat4 {
            row0: Vec4d::new(self.row0.x, self.row1.x, self.row2.x, self.row3.x),
            row1: Vec4d::new(self.row0.y, self.row1.y, self.row2.y, self.row3.y),
            row2: Vec4d::new(self.row0.z, self.row1.z, self.row2.z, self.row3.z),
            row3: Vec4d::new(self.row0.w, self.row1.w, self.row2.w, self.row3.w),
        }
    }

    /// The 3x3 submatrix obtained by deleting row `i` and column `j`.
    pub fn minor(&self, i: usize, j: usize) -> (r: Mat3)
        requires
            i < 4,
            j < 4,
        ensures
            r@ == minor4_v(self@, i as int, j as int),
    {
        let ra = if i == 0 {
            self.row1
        } else {
            self.row0
        };
        let rb = if i <= 1 {
            self.row2
        } else {
            self.row1
        };
        let rc = if i == 3 {
            self.row2
        } else {
            self.row3
        };
        Mat3::new(v4_drop_exec(ra, j), v4_drop_exec(rb, j), v4_drop_exec(rc, j))
    }

    /// The determinant, by expansion along the first row.
    pub fn determinant(&self) -> (r: Rat)
        requires
            det4_fits(self@),
        ensures
            r@ == det4_rep(self@),
            rat_eqv(r@, det4_v(self@)),
            rat_wfg(det4_v(self@)),
    {
        proof {
            use_type_invariant(self.row0.x);
            use_type_invariant(self.row0.y);
            use_type_invariant(self.row0.z);
            use_type_invariant(self.row0.w);
            lemma_ops_wf_all();
        }
        let m0 = self.minor(0, 0);
        let d0 = m0.determinant();
        let p0 = self.row0.x.mul(d0);
        let m1 = self.minor(0, 1);
        let d1 = m1.determinant();
        let p1 = self.row0.y.mul(d1);
        let m2 = self.minor(0, 2);
        let d2 = m2.determinant();
        let p2 = self.row0.z.mul(d2);
        let m3 = self.minor(0, 3);
        let d3 = m3.determinant();
        let p3 = self.row0.w.mul(d3);
        let s1 = p0.sub(p1);
        let s2 = s1.add(p2);
        let r = s2.sub(p3);
        proof {
            use_type_invariant(d0);
            use_type_invariant(d1);
            use_type_invariant(d2);
            use_type_invariant(d3);
            use_type_invariant(p0);
            use_type_invariant(p1);
            use_type_invariant(p2);
            use_type_invariant(p3);
            use_type_invariant(s1);
            use_type_invariant(s2);
            let g = self@;
            lemma_rmul_congr(g.r0.x, g.r0.x, d0@, det3_v(minor4_v(g, 0, 0)));
            lemma_eqv_trans(
                p0@,
                rmul(g.r0.x, d0@),
                rmul(g.r0.x, det3_v(minor4_v(g, 0, 0))),
            );
            lemma_rmul_congr(g.r0.y, g.r0.y, d1@, det3_v(minor4_v(g, 0, 1)));
            lemma_eqv_trans(
                p1@,
                rmul(g.r0.y, d1@),
                rmul(g.r0.y, det3_v(minor4_v(g, 0, 1))),
            );
            lemma_rmul_congr(g.r0.z, g.r0.z, d2@, det3_v(minor4_v(g, 0, 2)));
            lemma_eqv_trans(
                p2@,
                rmul(g.r0.z, d2@),
                rmul(g.r0.z, det3_v(minor4_v(g, 0, 2))),
            );
            lemma_rmul_congr(g.r0.w, g.r0.w, d3@, det3_v(minor4_v(g, 0, 3)));
            lemma_eqv_trans(
                p3@,
                rmul(g.r0.w, d3@),
                rmul(g.r0.w, det3_v(minor4_v(g, 0, 3))),
            );
            let e0 = rmul(g.r0.x, det3_v(minor4_v(g, 0, 0)));
            let e1 = rmul(g.r0.y, det3_v(minor4_v(g, 0, 1)));
            let e2 = rmul(g.r0.z, det3_v(minor4_v(g, 0, 2)));
            let e3 = rmul(g.r0.w, det3_v(minor4_v(g, 0, 3)));
            lemma_rsub_congr(p0@, e0, p1@, e1);
            lemma_eqv_trans(s1@, rsub(p0@, p1@), rsub(e0, e1));
            lemma_radd_congr(s1@, rsub(e0, e1), p2@, e2);
            lemma_eqv_trans(s2@, radd(s1@, p2@), radd(rsub(e0, e1), e2));
            lemma_rsub_congr(s2@, radd(rsub(e0, e1), e2), p3@, e3);
            lemma_eqv_trans(r@, rsub(s2@, p3@), det4_v(self@));
        }
        r
    }

    /// The cofactor: the minor determinant with the sign `(-1)^(i+j)`.
    pub fn cofactor(&self, i: usize, j: usize) -> (r: Rat)
        requires
            i < 4,
            j < 4,
            cof4_fits(self@, i as int, j as int),
        ensures
            r@ == cof4_rep(self@, i as int, j as int),
            rat_eqv(r@, cof4_v(self@, i as int, j as int)),
            rat_wfg(cof4_v(self@, i as int, j as int)),
    {
        let mn = self.minor(i, j);
        let d = mn.determinant();
        proof {
            use_type_invariant(d);
        }
        if (i + j) % 2 == 0 {
            d
        } else {
            proof {
                lemma_rneg_congr(d@, det3_v(minor4_v(self@, i as int, j as int)));
            }
            d.neg()
        }
    }

    /// The inverse, by the adjugate method.  Defined only for a nonsingular
    /// matrix.
    pub fn inverse(&self) -> (r: Mat4)
        requires
            det4_rep(self@).n != 0,
            inv4_fits(self@),
        ensures
            r@ == inv4_rep(self@),
            m4_eqv(r@, inv4_v(self@)),
    {
        let g = Ghost(self@);
        let det = self.determinant();
        let inv_det = Rat::from_int(1).div(det);
        proof {
            use_type_invariant(det);
            use_type_invariant(inv_det);
            lemma_ops_wf_all();
            lemma_lev_congr(det@, det4_v(g@), det@, det4_v(g@));
            lemma_norm(rdiv(rint(1), det@));
            lemma_rdiv_congr(rint(1), rint(1), det@, det4_v(g@));
            lemma_eqv_trans(inv_det@, rdiv(rint(1), det@), rdiv(rint(1), det4_v(g@)));
        }
        let c00 = self.cofactor(0, 0);
        let c01 = self.cofactor(0, 1);
        let c02 = self.cofactor(0, 2);
        let c03 = self.cofactor(0, 3);
        let c10 = self.cofactor(1, 0);
        let c11 = self.cofactor(1, 1);
        let c12 = self.cofactor(1, 2);
        let c13 = self.cofactor(1, 3);
        let c20 = self.cofactor(2, 0);
        let c21 = self.cofactor(2, 1);
        let c22 = self.cofactor(2, 2);
        let c23 = self.cofactor(2, 3);
        let c30 = self.cofactor(3, 0);
        let c31 = self.cofactor(3, 1);
        let c32 = self.cofactor(3, 2);
        let c33 = self.cofactor(3, 3);
        let e00 = c00.mul(inv_det);
        let e01 = c10.mul(inv_det);
        let e02 = c20.mul(inv_det);
        let e03 = c30.mul(inv_det);
        let e10 = c01.mul(inv_det);
        let e11 = c11.mul(inv_det);
        let e12 = c21.mul(inv_det);
        let e13 = c31.mul(inv_det);
        let e20 = c02.mul(inv_det);
        let e21 = c12.mul(inv_det);
        let e22 = c22.mul(inv_det);
        let e23 = c32.mul(inv_det);
        let e30 = c03.mul(inv_det);
        let e31 = c13.mul(inv_det);
        let e32 = c23.mul(inv_det);
        let e33 = c33.mul(inv_det);
        proof {
            use_type_invariant(c00);
            use_type_invariant(c01);
            use_type_invariant(c02);
            use_type_invariant(c03);
            use_type_invariant(c10);
            use_type_invariant(c11);
            use_type_invariant(c12);
            use_type_invariant(c13);
            use_type_invariant(c20);
            use_type_invariant(c21);
            use_type_invariant(c22);
            use_type_invariant(c23);
            use_type_invariant(c30);
            use_type_invariant(c31);
            use_type_invariant(c32);
            use_type_invariant(c33);
            let id = rdiv(rint(1), det4_v(g@));
            lemma_rmul_congr(c00@, cof4_v(g@, 0, 0), inv_det@, id);
            lemma_eqv_trans(e00@, rmul(c00@, inv_det@), rmul(cof4_v(g@, 0, 0), id));
            lemma_rmul_congr(c10@, cof4_v(g@, 1, 0), inv_det@, id);
            lemma_eqv_trans(e01@, rmul(c10@, inv_det@), rmul(cof4_v(g@, 1, 0), id));
            lemma_rmul_congr(c20@, cof4_v(g@, 2, 0), inv_det@, id);
            lemma_eqv_trans(e02@, rmul(c20@, inv_det@), rmul(cof4_v(g@, 2, 0), id));
            lemma_rmul_congr(c30@, cof4_v(g@, 3, 0), inv_det@, id);
            lemma_eqv_trans(e03@, rmul(c30@, inv_det@), rmul(cof4_v(g@, 3, 0), id));
            lemma_rmul_congr(c01@, cof4_v(g@, 0, 1), inv_det@, id);
            lemma_eqv_trans(e10@, rmul(c01@, inv_det@), rmul(cof4_v(g@, 0, 1), id));
            lemma_rmul_congr(c11@, cof4_v(g@, 1, 1), inv_det@, id);
            lemma_eqv_trans(e11@, rmul(c11@, inv_det@), rmul(cof4_v(g@, 1, 1), id));
            lemma_rmul_congr(c21@, cof4_v(g@, 2, 1), inv_det@, id);
            lemma_eqv_trans(e12@, rmul(c21@, inv_det@), rmul(cof4_v(g@, 2, 1), id));
            lemma_rmul_congr(c31@, cof4_v(g@, 3, 1), inv_det@, id);
            lemma_eqv_trans(e13@, rmul(c31@, inv_det@), rmul(cof4_v(g@, 3, 1), id));
            lemma_rmul_congr(c02@, cof4_v(g@, 0, 2), inv_det@, id);
            lemma_eqv_trans(e20@, rmul(c02@, inv_det@), rmul(cof4_v(g@, 0, 2), id));
            lemma_rmul_congr(c12@, cof4_v(g@, 1, 2), inv_det@, id);
            lemma_eqv_trans(e21@, rmul(c12@, inv_det@), rmul(cof4_v(g@, 1, 2), id));
            lemma_rmul_congr(c22@, cof4_v(g@, 2, 2), inv_det@, id);
            lemma_eqv_trans(e22@, rmul(c22@, inv_det@), rmul(cof4_v(g@, 2, 2), id));
            lemma_rmul_congr(c32@, cof4_v(g@, 3, 2), inv_det@, id);
            lemma_eqv_trans(e23@, rmul(c32@, inv_det@), rmul(cof4_v(g@, 3, 2), id));
            lemma_rmul_congr(c03@, cof4_v(g@, 0, 3), inv_det@, id);
            lemma_eqv_trans(e30@, rmul(c03@, inv_det@), rmul(cof4_v(g@, 0, 3), id));
            lemma_rmul_congr(c13@, cof4_v(g@, 1, 3), inv_det@, id);
            lemma_eqv_trans(e31@, rmul(c13@, inv_det@), rmul(cof4_v(g@, 1, 3), id));
            lemma_rmul_congr(c23@, cof4_v(g@, 2, 3), inv_det@, id);
            lemma_eqv_trans(e32@, rmul(c23@, inv_det@), rmul(cof4_v(g@, 2, 3), id));
            lemma_rmul_congr(c33@, cof4_v(g@, 3, 3), inv_det@, id);
            lemma_eqv_trans(e33@, rmul(c33@, inv_det@), rmul(cof4_v(g@, 3, 3), id));
        }
        Mat4 {
            row0: Vec4d::new(e00, e01, e02, e03),
            row1: Vec4d::new(e10, e11, e12, e13),
            row2: Vec4d::new(e20, e21, e22, e23),
            row3: Vec4d::new(e30, e31, e32, e33),
        }
    }

    /// Rowwise sum.
    pub fn add(self, other: Mat4) -> (r: Mat4)
        requires
            v4_add_fits(self@.r0, other@.r0),
            v4_add_fits(self@.r1, other@.r1),
            v4_add_fits(self@.r2, other@.r2),
            v4_add_fits(self@.r3, other@.r3),
        ensures
            v4_eqv(r@.r0, v4_add(self@.r0, other@.r0)),
            v4_eqv(r@.r1, v4_add(self@.r1, other@.r1)),
            v4_eqv(r@.r2, v4_add(self@.r2, other@.r2)),
            v4_eqv(r@.r3, v4_add(self@.r3, other@.r3)),
    {
        Mat4 {
            row0: self.row0.add(other.row0),
            row1: self.row1.add(other.row1),
            row2: self.row2.add(other.row2),
            row3: self.row3.add(other.row3),
        }
    }

    /// The matrix-vector product: each output component is the dot product of
    /// the corresponding row with the input vector.
    pub fn mul_vec(self, v: Vec4d) -> (r: Vec4d)
        requires
            dot4_fits(self@.r0, v@),
            dot4_fits(self@.r1, v@),
            dot4_fits(self@.r2, v@),
            dot4_fits(self@.r3, v@),
        ensures
            r@.x == dot4_rep(self@.r0, v@) && rat_eqv(r@.x, dot4_v(self@.r0, v@)),
            r@.y == dot4_rep(self@.r1, v@) && rat_eqv(r@.y, dot4_v(self@.r1, v@)),
            r@.z == dot4_rep(self@.r2, v@) && rat_eqv(r@.z, dot4_v(self@.r2, v@)),
            r@.w == dot4_rep(self@.r3, v@) && rat_eqv(r@.w, dot4_v(self@.r3, v@)),
    {
        Vec4d {
            x: self.row0.dot(v),
            y: self.row1.dot(v),
            z: self.row2.dot(v),
            w: self.row3.dot(v),
        }
    }

    /// The matrix scaled by `s`, row by row.
    pub fn mul_scalar(self, s: Rat) -> (r: Mat4)
        requires
            v4_scale_fits(self@.r0, s@),
            v4_scale_fits(self@.r1, s@),
            v4_scale_fits(self@.r2, s@),
            v4_scale_fits(self@.r3, s@),
        ensures
            v4_eqv(r@.r0, v4_scale(self@.r0, s@)),
            v4_eqv(r@.r1, v4_scale(self@.r1, s@)),
            v4_eqv(r@.r2, v4_scale(self@.r2, s@)),
            v4_eqv(r@.r3, v4_scale(self@.r3, s@)),
    {
        Mat4 {
            row0: self.row0.scale(s),
            row1: self.row1.scale(s),
            row2: self.row2.scale(s),
            row3: self.row3.scale(s),
        }
    }

    /// The matrix product: entry `(i, j)` of the result is the sum over `k`
    /// of `self[i][k] * other[k][j]`.
    pub fn mul_mat(self, other: Mat4) -> (r: Mat4)
        requires
            m4_mul_fits(self@, other@),
        ensures
            m4_eqv(r@, m4_mul_v(self@, other@)),
            v4_eqv(r@.r0, m4_mul_row_v(self@.r0, other@)),
            v4_eqv(r@.r1, m4_mul_row_v(self@.r1, other@)),
            v4_eqv(r@.r2, m4_mul_row_v(self@.r2, other@)),
            v4_eqv(r@.r3, m4_mul_row_v(self@.r3, other@)),
    {
        Mat4 {
            row0: mul4_row(self.row0, other),
            row1: mul4_row(self.row1, other),
            row2: mul4_row(self.row2, other),
            row3: mul4_row(self.row3, other),
        }
    }

    /// The basis-change matrix built from a position and forward/up vectors:
    /// columns are forward, left (`up x forward`) and up, with the position
    /// in the last column and a fixed `(0, 0, 0, 1)` bottom row.
    pub fn orient(pos: Vec3d, fwd: Vec3d, up: Vec3d) -> (r: Mat4)
        requires
            cross3_fits(up@, fwd@),
        ensures
            r@.r0 == (Vec4g {
                x: fwd@.x,
                y: cross3_rep(up@, fwd@).x,
                z: up@.x,
                w: pos@.x,
            }),
            r@.r1 == (Vec4g {
                x: fwd@.y,
                y: cross3_rep(up@, fwd@).y,
                z: up@.y,
                w: pos@.y,
            }),
            r@.r2 == (Vec4g {
                x: fwd@.z,
                y: cross3_rep(up@, fwd@).z,
                z: up@.z,
                w: pos@.z,
            }),
            r@.r3 == (Vec4g { x: rint(0), y: rint(0), z: rint(0), w: rint(1) }),
            v3_eqv(cross3_rep(up@, fwd@), v3_cross(up@, fwd@)),
    {
        let left = up.cross(fwd);
        Mat4 {
            row0: Vec4d::new(fwd.x, left.x, up.x, pos.x),
            row1: Vec4d::new(fwd.y, left.y, up.y, pos.y),
            row2: Vec4d::new(fwd.z, left.z, up.z, pos.z),
            row3: Vec4d::new(Rat::zero(), Rat::zero(), Rat::zero(), Rat::one()),
        }
    }

    /// The view matrix looking from `pos` towards `look` with up hint `up`:
    /// rows are the right, recomputed-up and forward axes, each with
    /// translation `-dot(pos, axis)`, over a fixed `(0, 0, 0, 1)` bottom row.
    pub fn lookat(pos: Vec3d, look: Vec3d, up: Vec3d) -> (r: Mat4)
        requires
            lookat_fits(pos@, look@, up@),
        ensures
            ({
                let f = lookat_fwd_rep(pos@, look@);
                let rt = lookat_right_rep(pos@, look@, up@);
                let u = lookat_up_rep(pos@, look@, up@);
                &&& r@.r0 == (Vec4g {
                    x: rt.x,
                    y: rt.y,
                    z: rt.z,
                    w: rneg(dot3_rep(pos@, rt)),
                })
                &&& r@.r1 == (Vec4g { x: u.x, y: u.y, z: u.z, w: rneg(dot3_rep(pos@, u)) })
                &&& r@.r2 == (Vec4g { x: f.x, y: f.y, z: f.z, w: rneg(dot3_rep(pos@, f)) })
                &&& r@.r3 == (Vec4g { x: rint(0), y: rint(0), z: rint(0), w: rint(1) })
            }),
    {
        let fwd = pos.sub(look).normalize();
        let right = up.cross(fwd).normalize();
        let up2 = right.cross(fwd).normalize();
        let tr = pos.dot(right).neg();
        let tu = pos.dot(up2).neg();
        let tf = pos.dot(fwd).neg();
        Mat4 {
            row0: Vec4d::new(right.x, right.y, right.z, tr),
            row1: Vec4d::new(up2.x, up2.y, up2.z, tu),
            row2: Vec4d::new(fwd.x, fwd.y, fwd.z, tf),
            row3: Vec4d::new(Rat::zero(), Rat::zero(), Rat::zero(), Rat::one()),
        }
    }
}

/// One row of the true 4x4 matrix product.
fn mul4_row(a: Vec4d, b: Mat4) -> (r: Vec4d)
    requires
        m4_mul_row_fits(a@, b@),
    ensures
        r@ == add4_rep(
            add4_rep(
                add4_rep(scale4_rep(b@.r0, a@.x), scale4_rep(b@.r1, a@.y)),
                scale4_rep(b@.r2, a@.z),
            ),
            scale4_rep(b@.r3, a@.w),
        ),
        v4_eqv(r@, m4_mul_row_v(a@, b@)),
{
    proof {
        use_type_invariant(a.x);
        use_type_invariant(a.y);
        use_type_invariant(a.z);
        use_type_invariant(a.w);
        use_type_invariant(b.row0.x);
        use_type_invariant(b.row0.y);
        use_type_invariant(b.row0.z);
        use_type_invariant(b.row0.w);
        use_type_invariant(b.row1.x);
        use_type_invariant(b.row1.y);
        use_type_invariant(b.row1.z);
        use_type_invariant(b.row1.w);
        use_type_invariant(b.row2.x);
        use_type_invariant(b.row2.y);
        use_type_invariant(b.row2.z);
        use_type_invariant(b.row2.w);
        use_type_invariant(b.row3.x);
        use_type_invariant(b.row3.y);
        use_type_invariant(b.row3.z);
        use_type_invariant(b.row3.w);
        lemma_ops_wf_all();
    }
    let t0 = b.row0.scale(a.x);
    let t1 = b.row1.scale(a.y);
    let t2 = b.row2.scale(a.z);
    let t3 = b.row3.scale(a.w);
    let s1 = t0.add(t1);
    let s2 = s1.add(t2);
    let r = s2.add(t3);
    proof {
        use_type_invariant(t0.x);
        use_type_invariant(t0.y);
        use_type_invariant(t0.z);
        use_type_invariant(t0.w);
        use_type_invariant(t1.x);
        use_type_invariant(t1.y);
        use_type_invariant(t1.z);
        use_type_invariant(t1.w);
        use_type_invariant(t2.x);
        use_type_invariant(t2.y);
        use_type_invariant(t2.z);
        use_type_invariant(t2.w);
        use_type_invariant(t3.x);
        use_type_invariant(t3.y);
        use_type_invariant(t3.z);
        use_type_invariant(t3.w);
        use_type_invariant(s1.x);
        use_type_invariant(s1.y);
        use_type_invariant(s1.z);
        use_type_invariant(s1.w);
        use_type_invariant(s2.x);
        use_type_invariant(s2.y);
        use_type_invariant(s2.z);
        use_type_invariant(s2.w);
        let g0 = v4_scale(b@.r0, a@.x);
        let g1 = v4_scale(b@.r1, a@.y);
        let g2 = v4_scale(b@.r2, a@.z);
        let g3 = v4_scale(b@.r3, a@.w);
        lemma_radd_congr(t0@.x, g0.x, t1@.x, g1.x);
        lemma_radd_congr(t0@.y, g0.y, t1@.y, g1.y);
        lemma_radd_congr(t0@.z, g0.z, t1@.z, g1.z);
        lemma_radd_congr(t0@.w, g0.w, t1@.w, g1.w);
        lemma_eqv_trans(s1@.x, radd(t0@.x, t1@.x), radd(g0.x, g1.x));
        lemma_eqv_trans(s1@.y, radd(t0@.y, t1@.y), radd(g0.y, g1.y));
        lemma_eqv_trans(s1@.z, radd(t0@.z, t1@.z), radd(g0.z, g1.z));
        lemma_eqv_trans(s1@.w, radd(t0@.w, t1@.w), radd(g0.w, g1.w));
        lemma_radd_congr(s1@.x, radd(g0.x, g1.x), t2@.x, g2.x);
        lemma_radd_congr(s1@.y, radd(g0.y, g1.y), t2@.y, g2.y);
        lemma_radd_congr(s1@.z, radd(g0.z, g1.z), t2@.z, g2.z);
        lemma_radd_congr(s1@.w, radd(g0.w, g1.w), t2@.w, g2.w);
        lemma_eqv_trans(s2@.x, radd(s1@.x, t2@.x), radd(radd(g0.x, g1.x), g2.x));
        lemma_eqv_trans(s2@.y, radd(s1@.y, t2@.y), radd(radd(g0.y, g1.y), g2.y));
        lemma_eqv_trans(s2@.z, radd(s1@.z, t2@.z), radd(radd(g0.z, g1.z), g2.z));
        lemma_eqv_trans(s2@.w, radd(s1@.w, t2@.w), radd(radd(g0.w, g1.w), g2.w));
        lemma_radd_congr(s2@.x, radd(radd(g0.x, g1.x), g2.x), t3@.x, g3.x);
        lemma_radd_congr(s2@.y, radd(radd(g0.y, g1.y), g2.y), t3@.y, g3.y);
        lemma_radd_congr(s2@.z, radd(radd(g0.z, g1.z), g2.z), t3@.z, g3.z);
        lemma_radd_congr(s2@.w, radd(radd(g0.w, g1.w), g2.w), t3@.w, g3.w);
        lemma_eqv_trans(r@.x, radd(s2@.x, t3@.x), radd(radd(radd(g0.x, g1.x), g2.x), g3.x));
        lemma_eqv_trans(r@.y, radd(s2@.y, t3@.y), radd(radd(radd(g0.y, g1.y), g2.y), g3.y));
        lemma_eqv_trans(r@.z, radd(s2@.z, t3@.z), radd(radd(radd(g0.z, g1.z), g2.z), g3.z));
        lemma_eqv_trans(r@.w, radd(s2@.w, t3@.w), radd(radd(radd(g0.w, g1.w), g2.w), g3.w));
    }
    r
}

/// A 4-row with the column `j` deleted.
fn v4_drop_exec(v: Vec4d, j: usize) -> (r: Vec3d)
    requires
        j < 4,
    ensures
        r@ == v4_drop(v@, j as int),
{
    if j == 0 {
        Vec3d::new(v.y, v.z, v.w)
    } else if j == 1 {
        Vec3d::new(v.x, v.z, v.w)
    } else if j == 2 {
        Vec3d::new(v.x, v.y, v.w)
    } else {
        Vec3d::new(v.x, v.y, v.z)
    }
}

impl PartialEq for Mat4 {
    /// Rowwise value equality.
    fn eq(&self, other: &Mat4) -> (r: bool) {
        self.row0 == other.row0 && self.row1 == other.row1 && self.row2 == other.row2 && self.row3
            == other.row3
    }
}

impl vstd::std_specs::cmp::PartialEqSpecImpl for Mat4 {
    open spec fn obeys_eq_spec() -> bool {
        true
    }

    open spec fn eq_spec(&self, other: &Mat4) -> bool {
        m4_eqv(self@, other@)
    }
}

} // verus!
