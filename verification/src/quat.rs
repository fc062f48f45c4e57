//! Unit-rotation quaternions over exact rational scalars, with `w` as the
//! scalar part and `(0, 0, 0, 1)` as the identity rotation.

use vstd::prelude::*;
use crate::rat::{
    Rat, Ratg, lemma_eqv_trans, lemma_lev_congr, lemma_norm, lemma_ops_wf_all, lemma_radd_congr,
    lemma_rdiv_congr, lemma_rdiv_zero_iff, lemma_rmul_congr, lemma_rneg_congr, lemma_rsub_congr, lemma_sqrt_rel_congr,
    mmms_fits, mmms_rep, norm_r, ppms_fits, ppms_rep, radd, rat_eqv, rat_fits, rat_wfg, rdiv,
    rint, rmul, rneg, rsub, sqrt_rel, sqrt_rep,
};
use crate::vec3d::{
    Vec3d, Vec3g, normalize3_fits, normalize3_rep, v3_eqv, v3_scale, v3_scale_fits, v3_wf,
};
use crate::mat3::{Mat3, Mat3g};

verus! {

/// The mathematical model of a quaternion: four rational models, `w` scalar.
pub ghost struct Quatg {
    pub x: Ratg,
    pub y: Ratg,
    pub z: Ratg,
    pub w: Ratg,
}

/// All four component models have positive denominators.
pub open spec fn q4_wf(q: Quatg) -> bool {
    rat_wfg(q.x) && rat_wfg(q.y) && rat_wfg(q.z) && rat_wfg(q.w)
}

/// Componentwise value equality.
pub open spec fn q4_eqv(a: Quatg, b: Quatg) -> bool {
    rat_eqv(a.x, b.x) && rat_eqv(a.y, b.y) && rat_eqv(a.z, b.z) && rat_eqv(a.w, b.w)
}

/// The identity rotation.
pub open spec fn q4_ident() -> Quatg {
    Quatg { x: rint(0), y: rint(0), z: rint(0), w: rint(1) }
}

/// Some component is nonzero.
pub open spec fn q4_nonzero(q: Quatg) -> bool {
    q.x.n != 0 || q.y.n != 0 || q.z.n != 0 || q.w.n != 0
}

/// A vector embedded as a pure quaternion (zero scalar part).
pub open spec fn q4_pure(v: Vec3g) -> Quatg {
    Quatg { x: v.x, y: v.y, z: v.z, w: rint(0) }
}

/// The vector part of a quaternion.
pub open spec fn q4_vec(q: Quatg) -> Vec3g {
    Vec3g { x: q.x, y: q.y, z: q.z }
}

/// The Hamilton product of two quaternion models.
pub open spec fn qmul_v(p: Quatg, q: Quatg) -> Quatg {
    Quatg {
        x: rsub(radd(radd(rmul(p.w, q.x), rmul(p.x, q.w)), rmul(p.y, q.z)), rmul(p.z, q.y)),
        y: rsub(radd(radd(rmul(p.w, q.y), rmul(p.y, q.w)), rmul(p.z, q.x)), rmul(p.x, q.z)),
        z: rsub(radd(radd(rmul(p.w, q.z), rmul(p.z, q.w)), rmul(p.x, q.y)), rmul(p.y, q.x)),
        w: rsub(rsub(rsub(rmul(p.w, q.w), rmul(p.x, q.x)), rmul(p.y, q.y)), rmul(p.z, q.z)),
    }
}

/// The squared magnitude of a quaternion model.
pub open spec fn magsq4_v(q: Quatg) -> Ratg {
    radd(radd(radd(rmul(q.x, q.x), rmul(q.y, q.y)), rmul(q.z, q.z)), rmul(q.w, q.w))
}

/// The true inverse of a (possibly non-unit) quaternion model: the conjugate
/// scaled by the reciprocal of the squared magnitude.
pub open spec fn qinv_v(q: Quatg) -> Quatg {
    let m = magsq4_v(q);
    Quatg {
        x: rneg(rdiv(q.x, m)),
        y: rneg(rdiv(q.y, m)),
        z: rneg(rdiv(q.z, m)),
        w: rdiv(q.w, m),
    }
}

/// The sandwich-product rotation of `v` by `q`: the vector part of
/// `q * (v, 0) * q^(-1)`.
pub open spec fn qrot_v(q: Quatg, v: Vec3g) -> Vec3g {
    q4_vec(qmul_v(qmul_v(q, q4_pure(v)), qinv_v(q)))
}

/// The representation the Hamilton product computation stores.
pub open spec fn qmul_rep(p: Quatg, q: Quatg) -> Quatg {
    Quatg {
        x: ppms_rep(
            norm_r(rmul(p.w, q.x)),
            norm_r(rmul(p.x, q.w)),
            norm_r(rmul(p.y, q.z)),
            norm_r(rmul(p.z, q.y)),
        ),
        y: ppms_rep(
            norm_r(rmul(p.w, q.y)),
            norm_r(rmul(p.y, q.w)),
            norm_r(rmul(p.z, q.x)),
            norm_r(rmul(p.x, q.z)),
        ),
        z: ppms_rep(
            norm_r(rmul(p.w, q.z)),
            norm_r(rmul(p.z, q.w)),
            norm_r(rmul(p.x, q.y)),
            norm_r(rmul(p.y, q.x)),
        ),
        w: mmms_rep(
            norm_r(rmul(p.w, q.w)),
            norm_r(rmul(p.x, q.x)),
            norm_r(rmul(p.y, q.y)),
            norm_r(rmul(p.z, q.z)),
        ),
    }
}

/// Every intermediate of the Hamilton product fits in a `Rat`.
pub open spec fn qmul_fits(p: Quatg, q: Quatg) -> bool {
    &&& rat_fits(rmul(p.w, q.x)) && rat_fits(rmul(p.x, q.w)) && rat_fits(rmul(p.y, q.z))
        && rat_fits(rmul(p.z, q.y))
    &&& rat_fits(rmul(p.w, q.y)) && rat_fits(rmul(p.y, q.w)) && rat_fits(rmul(p.z, q.x))
        && rat_fits(rmul(p.x, q.z))
    &&& rat_fits(rmul(p.w, q.z)) && rat_fits(rmul(p.z, q.w)) && rat_fits(rmul(p.x, q.y))
        && rat_fits(rmul(p.y, q.x))
    &&& rat_fits(rmul(p.w, q.w)) && rat_fits(rmul(p.x, q.x)) && rat_fits(rmul(p.y, q.y))
        && rat_fits(rmul(p.z, q.z))
    &&& ppms_fits(
        norm_r(rmul(p.w, q.x)),
        norm_r(rmul(p.x, q.w)),
        norm_r(rmul(p.y, q.z)),
        norm_r(rmul(p.z, q.y)),
    )
    &&& ppms_fits(
        norm_r(rmul(p.w, q.y)),
        norm_r(rmul(p.y, q.w)),
        norm_r(rmul(p.z, q.x)),
        norm_r(rmul(p.x, q.z)),
    )
    &&& ppms_fits(
        norm_r(rmul(p.w, q.z)),
        norm_r(rmul(p.z, q.w)),
        norm_r(rmul(p.x, q.y)),
        norm_r(rmul(p.y, q.x)),
    )
    &&& mmms_fits(
        norm_r(rmul(p.w, q.w)),
        norm_r(rmul(p.x, q.x)),
        norm_r(rmul(p.y, q.y)),
        norm_r(rmul(p.z, q.z)),
    )
}

/// The representation the squared-magnitude computation stores.
pub open spec fn magsq4_rep(q: Quatg) -> Ratg {
    norm_r(
        radd(
            norm_r(
                radd(
                    norm_r(radd(norm_r(rmul(q.x, q.x)), norm_r(rmul(q.y, q.y)))),
                    norm_r(rmul(q.z, q.z)),
                ),
            ),
            norm_r(rmul(q.w, q.w)),
        ),
    )
}

/// Every intermediate of the squared magnitude fits in a `Rat`.
pub open spec fn magsq4_fits(q: Quatg) -> bool {
    &&& rat_fits(rmul(q.x, q.x)) && rat_fits(rmul(q.y, q.y)) && rat_fits(rmul(q.z, q.z))
        && rat_fits(rmul(q.w, q.w))
    &&& rat_fits(radd(norm_r(rmul(q.x, q.x)), norm_r(rmul(q.y, q.y))))
    &&& rat_fits(
        radd(
            norm_r(radd(norm_r(rmul(q.x, q.x)), norm_r(rmul(q.y, q.y)))),
            norm_r(rmul(q.z, q.z)),
        ),
    )
    &&& rat_fits(
        radd(
            norm_r(
                radd(
                    norm_r(radd(norm_r(rmul(q.x, q.x)), norm_r(rmul(q.y, q.y)))),
                    norm_r(rmul(q.z, q.z)),
                ),
            ),
            norm_r(rmul(q.w, q.w)),
        ),
    )
}

/// The representation the magnitude computation stores.
pub open spec fn mag4_rep(q: Quatg) -> Ratg {
    sqrt_rep(magsq4_rep(q))
}

/// The representation `inverse` returns.
pub open spec fn qinv_rep(q: Quatg) -> Quatg {
    let m = magsq4_rep(q);
    Quatg {
        x: rneg(norm_r(rdiv(q.x, m))),
        y: rneg(norm_r(rdiv(q.y, m))),
        z: rneg(norm_r(rdiv(q.z, m))),
        w: norm_r(rdiv(q.w, m)),
    }
}

/// Every intermediate of `inverse` fits in a `Rat`.
pub open spec fn qinv_fits(q: Quatg) -> bool {
    &&& magsq4_fits(q)
    &&& rat_fits(rdiv(q.x, magsq4_rep(q)))
    &&& rat_fits(rdiv(q.y, magsq4_rep(q)))
    &&& rat_fits(rdiv(q.z, magsq4_rep(q)))
    &&& rat_fits(rdiv(q.w, magsq4_rep(q)))
}

/// The representation `normalize` returns.
pub open spec fn qnormalize_rep(q: Quatg) -> Quatg {
    let m = mag4_rep(q);
    if m.n > 0 {
        Quatg {
            x: norm_r(rdiv(q.x, m)),
            y: norm_r(rdiv(q.y, m)),
            z: norm_r(rdiv(q.z, m)),
            w: norm_r(rdiv(q.w, m)),
        }
    } else {
        q
    }
}

/// Every intermediate of `normalize` fits in a `Rat`.
pub open spec fn qnormalize_fits(q: Quatg) -> bool {
    &&& magsq4_fits(q)
    &&& (mag4_rep(q).n > 0 ==> rat_fits(rdiv(q.x, mag4_rep(q))) && rat_fits(
        rdiv(q.y, mag4_rep(q)),
    ) && rat_fits(rdiv(q.z, mag4_rep(q))) && rat_fits(rdiv(q.w, mag4_rep(q))))
}

/// The representation `rotate_point` returns.
pub open spec fn qrot_rep(q: Quatg, v: Vec3g) -> Vec3g {
    q4_vec(qmul_rep(qmul_rep(q, q4_pure(v)), qinv_rep(q)))
}

/// Every intermediate of `rotate_point` fits in a `Rat`.
pub open spec fn qrot_fits(q: Quatg, v: Vec3g) -> bool {
    &&& qinv_fits(q)
    &&& qmul_fits(q, q4_pure(v))
    &&& qmul_fits(qmul_rep(q, q4_pure(v)), qinv_rep(q))
}

/// A squared quaternion magnitude is never negative, and vanishes exactly on
/// the zero quaternion.
pub proof fn lemma_magsq4_nonneg(q: Quatg)
    requires
        q4_wf(q),
    ensures
        magsq4_v(q).n >= 0,
        rat_wfg(magsq4_v(q)),
        (magsq4_v(q).n == 0) == !q4_nonzero(q),
{
    assert(magsq4_v(q).n >= 0 && rat_wfg(magsq4_v(q)) && ((q.x.n == 0 && q.y.n == 0 && q.z.n == 0
        && q.w.n == 0) <==> magsq4_v(q).n == 0)) by (nonlinear_arith)
        requires
            1 <= q.x.d,
            1 <= q.y.d,
            1 <= q.z.d,
            1 <= q.w.d,
    {
    }
}

/// The Hamilton product respects value equality.
pub proof fn lemma_qmul_congr(p: Quatg, p2: Quatg, q: Quatg, q2: Quatg)
    requires
        q4_eqv(p, p2),
        q4_eqv(q, q2),
        q4_wf(p),
        q4_wf(p2),
        q4_wf(q),
        q4_wf(q2),
    ensures
        q4_eqv(qmul_v(p, q), qmul_v(p2, q2)),
        q4_wf(qmul_v(p, q)),
        q4_wf(qmul_v(p2, q2)),
{
    lemma_ops_wf_all();
    lemma_rmul_congr(p.w, p2.w, q.x, q2.x);
    lemma_rmul_congr(p.x, p2.x, q.w, q2.w);
    lemma_rmul_congr(p.y, p2.y, q.z, q2.z);
    lemma_rmul_congr(p.z, p2.z, q.y, q2.y);
    lemma_radd_congr(rmul(p.w, q.x), rmul(p2.w, q2.x), rmul(p.x, q.w), rmul(p2.x, q2.w));
    lemma_radd_congr(
        radd(rmul(p.w, q.x), rmul(p.x, q.w)),
        radd(rmul(p2.w, q2.x), rmul(p2.x, q2.w)),
        rmul(p.y, q.z),
        rmul(p2.y, q2.z),
    );
    lemma_rsub_congr(
        radd(radd(rmul(p.w, q.x), rmul(p.x, q.w)), rmul(p.y, q.z)),
        radd(radd(rmul(p2.w, q2.x), rmul(p2.x, q2.w)), rmul(p2.y, q2.z)),
        rmul(p.z, q.y),
        rmul(p2.z, q2.y),
    );
    lemma_rmul_congr(p.w, p2.w, q.y, q2.y);
    lemma_rmul_congr(p.y, p2.y, q.w, q2.w);
    lemma_rmul_congr(p.z, p2.z, q.x, q2.x);
    lemma_rmul_congr(p.x, p2.x, q.z, q2.z);
    lemma_radd_congr(rmul(p.w, q.y), rmul(p2.w, q2.y), rmul(p.y, q.w), rmul(p2.y, q2.w));
    lemma_radd_congr(
        radd(rmul(p.w, q.y), rmul(p.y, q.w)),
        radd(rmul(p2.w, q2.y), rmul(p2.y, q2.w)),
        rmul(p.z, q.x),
        rmul(p2.z, q2.x),
    );
    lemma_rsub_congr(
        radd(radd(rmul(p.w, q.y), rmul(p.y, q.w)), rmul(p.z, q.x)),
        radd(radd(rmul(p2.w, q2.y), rmul(p2.y, q2.w)), rmul(p2.z, q2.x)),
        rmul(p.x, q.z),
        rmul(p2.x, q2.z),
    );
    lemma_rmul_congr(p.w, p2.w, q.z, q2.z);
    lemma_rmul_congr(p.z, p2.z, q.w, q2.w);
    lemma_rmul_congr(p.x, p2.x, q.y, q2.y);
    lemma_rmul_congr(p.y, p2.y, q.x, q2.x);
    lemma_radd_congr(rmul(p.w, q.z), rmul(p2.w, q2.z), rmul(p.z, q.w), rmul(p2.z, q2.w));
    lemma_radd_congr(
        radd(rmul(p.w, q.z), rmul(p.z, q.w)),
        radd(rmul(p2.w, q2.z), rmul(p2.z, q2.w)),
        rmul(p.x, q.y),
        rmul(p2.x, q2.y),
    );
    lemma_rsub_congr(
        radd(radd(rmul(p.w, q.z), rmul(p.z, q.w)), rmul(p.x, q.y)),
        radd(radd(rmul(p2.w, q2.z), rmul(p2.z, q2.w)), rmul(p2.x, q2.y)),
        rmul(p.y, q.x),
        rmul(p2.y, q2.x),
    );
    lemma_rmul_congr(p.w, p2.w, q.w, q2.w);
    lemma_rmul_congr(p.x, p2.x, q.x, q2.x);
    lemma_rmul_congr(p.y, p2.y, q.y, q2.y);
    lemma_rmul_congr(p.z, p2.z, q.z, q2.z);
    lemma_rsub_congr(rmul(p.w, q.w), rmul(p2.w, q2.w), rmul(p.x, q.x), rmul(p2.x, q2.x));
    lemma_rsub_congr(
        rsub(rmul(p.w, q.w), rmul(p.x, q.x)),
        rsub(rmul(p2.w, q2.w), rmul(p2.x, q2.x)),
        rmul(p.y, q.y),
        rmul(p2.y, q2.y),
    );
    lemma_rsub_congr(
        rsub(rsub(rmul(p.w, q.w), rmul(p.x, q.x)), rmul(p.y, q.y)),
        rsub(rsub(rmul(p2.w, q2.w), rmul(p2.x, q2.x)), rmul(p2.y, q2.y)),
        rmul(p.z, q.z),
        rmul(p2.z, q2.z),
    );
}

/// The squared magnitude respects value equality.
pub proof fn lemma_magsq4_congr(p: Quatg, p2: Quatg)
    requires
        q4_eqv(p, p2),
        q4_wf(p),
        q4_wf(p2),
    ensures
        rat_eqv(magsq4_v(p), magsq4_v(p2)),
        rat_wfg(magsq4_v(p)),
        rat_wfg(magsq4_v(p2)),
{
    lemma_ops_wf_all();
    lemma_rmul_congr(p.x, p2.x, p.x, p2.x);
    lemma_rmul_congr(p.y, p2.y, p.y, p2.y);
    lemma_rmul_congr(p.z, p2.z, p.z, p2.z);
    lemma_rmul_congr(p.w, p2.w, p.w, p2.w);
    lemma_radd_congr(rmul(p.x, p.x), rmul(p2.x, p2.x), rmul(p.y, p.y), rmul(p2.y, p2.y));
    lemma_radd_congr(
        radd(rmul(p.x, p.x), rmul(p.y, p.y)),
        radd(rmul(p2.x, p2.x), rmul(p2.y, p2.y)),
        rmul(p.z, p.z),
        rmul(p2.z, p2.z),
    );
    lemma_radd_congr(
        radd(radd(rmul(p.x, p.x), rmul(p.y, p.y)), rmul(p.z, p.z)),
        radd(radd(rmul(p2.x, p2.x), rmul(p2.y, p2.y)), rmul(p2.z, p2.z)),
        rmul(p.w, p.w),
        rmul(p2.w, p2.w),
    );
}

/// The inverse respects value equality (on nonzero quaternions).
pub proof fn lemma_qinv_congr(p: Quatg, p2: Quatg)
    requires
        q4_eqv(p, p2),
        q4_wf(p),
        q4_wf(p2),
        q4_nonzero(p),
    ensures
        q4_nonzero(p2),
        q4_eqv(qinv_v(p), qinv_v(p2)),
        q4_wf(qinv_v(p)),
        q4_wf(qinv_v(p2)),
{
    lemma_ops_wf_all();
    lemma_magsq4_congr(p, p2);
    lemma_magsq4_nonneg(p);
    lemma_magsq4_nonneg(p2);
    lemma_lev_congr(magsq4_v(p), magsq4_v(p2), magsq4_v(p), magsq4_v(p2));
    lemma_rdiv_congr(p.x, p2.x, magsq4_v(p), magsq4_v(p2));
    lemma_rdiv_congr(p.y, p2.y, magsq4_v(p), magsq4_v(p2));
    lemma_rdiv_congr(p.z, p2.z, magsq4_v(p), magsq4_v(p2));
    lemma_rdiv_congr(p.w, p2.w, magsq4_v(p), magsq4_v(p2));
    lemma_rneg_congr(rdiv(p.x, magsq4_v(p)), rdiv(p2.x, magsq4_v(p2)));
    lemma_rneg_congr(rdiv(p.y, magsq4_v(p)), rdiv(p2.y, magsq4_v(p2)));
    lemma_rneg_congr(rdiv(p.z, magsq4_v(p)), rdiv(p2.z, magsq4_v(p2)));
}

/// The sandwich-product rotation respects value equality in both arguments.
pub proof fn lemma_qrot_congr(p: Quatg, p2: Quatg, v: Vec3g, v2: Vec3g)
    requires
        q4_eqv(p, p2),
        v3_eqv(v, v2),
        q4_wf(p),
        q4_wf(p2),
        v3_wf(v),
        v3_wf(v2),
        q4_nonzero(p),
    ensures
        v3_eqv(qrot_v(p, v), qrot_v(p2, v2)),
        v3_wf(qrot_v(p, v)),
        v3_wf(qrot_v(p2, v2)),
{
    lemma_qinv_congr(p, p2);
    lemma_qmul_congr(p, p2, q4_pure(v), q4_pure(v2));
    lemma_qmul_congr(
        qmul_v(p, q4_pure(v)),
        qmul_v(p2, q4_pure(v2)),
        qinv_v(p),
        qinv_v(p2),
    );
}

/// A quaternion of exact rational components, `(x, y, z, w)`.
#[derive(Clone, Copy, Debug)]
pub struct Quat {
    pub x: Rat,
    pub y: Rat,
    pub z: Rat,
    pub w: Rat,
}

impl View for Quat {
    type V = Quatg;

    open spec fn view(&self) -> Quatg {
        Quatg { x: self.x@, y: self.y@, z: self.z@, w: self.w@ }
    }
}

impl Quat {
    /// The quaternion `(x, y, z, w)`.
    pub fn new(x: Rat, y: Rat, z: Rat, w: Rat) -> (r: Quat)
        ensures
            r@ == (Quatg { x: x@, y: y@, z: z@, w: w@ }),
    {
        Quat { x, y, z, w }
    }

    /// The identity rotation `(0, 0, 0, 1)`.
    pub fn zero() -> (r: Quat)
        ensures
            r@ == q4_ident(),
    {
        Quat { x: Rat::zero(), y: Rat::zero(), z: Rat::zero(), w: Rat::one() }
    }

    /// The rotation about `axis` whose half angle has sine `sin_half` and
    /// cosine `cos_half`: the normalized axis scaled by `sin_half`, with
    /// scalar part `cos_half`.
    pub fn from_axis_angle(axis: Vec3d, sin_half: Rat, cos_half: Rat) -> (r: Quat)
        requires
            normalize3_fits(axis@),
            v3_scale_fits(normalize3_rep(axis@), sin_half@),
        ensures
            q4_eqv(
                r@,
                Quatg {
                    x: rmul(normalize3_rep(axis@).x, sin_half@),
                    y: rmul(normalize3_rep(axis@).y, sin_half@),
                    z: rmul(normalize3_rep(axis@).z, sin_half@),
                    w: cos_half@,
                },
            ),
    {
        let n = axis.normalize();
        let s = n.scale(sin_half);
        proof {
            use_type_invariant(s.x);
            use_type_invariant(s.y);
            use_type_invariant(s.z);
            use_type_invariant(cos_half);
        }
        Quat { x: s.x, y: s.y, z: s.z, w: cos_half }
    }

    /// The squared magnitude: sum of the squared components.
    pub fn magnitute_squared(self) -> (r: Rat)
        requires
            magsq4_fits(self@),
        ensures
            r@ == magsq4_rep(self@),
            rat_eqv(r@, magsq4_v(self@)),
            r@.n >= 0,
    {
        proof {
            use_type_invariant(self.x);
            use_type_invariant(self.y);
            use_type_invariant(self.z);
            use_type_invariant(self.w);
            lemma_ops_wf_all();
        }
        let xx = self.x.mul(self.x);
        let yy = self.y.mul(self.y);
        let zz = self.z.mul(self.z);
        let ww = self.w.mul(self.w);
        let s1 = xx.add(yy);
        let s2 = s1.add(zz);
        let s3 = s2.add(ww);
        proof {
            let gx = rmul(self@.x, self@.x);
            let gy = rmul(self@.y, self@.y);
            let gz = rmul(self@.z, self@.z);
            let gw = rmul(self@.w, self@.w);
            lemma_radd_congr(xx@, gx, yy@, gy);
            lemma_eqv_trans(s1@, radd(xx@, yy@), radd(gx, gy));
            lemma_radd_congr(s1@, radd(gx, gy), zz@, gz);
            lemma_eqv_trans(s2@, radd(s1@, zz@), radd(radd(gx, gy), gz));
            lemma_radd_congr(s2@, radd(radd(gx, gy), gz), ww@, gw);
            lemma_eqv_trans(s3@, radd(s2@, ww@), radd(radd(radd(gx, gy), gz), gw));
            lemma_magsq4_nonneg(self@);
            lemma_lev_congr(s3@, magsq4_v(self@), s3@, magsq4_v(self@));
        }
        s3
    }

    /// The magnitude, rounded down to a multiple of `1 / SQRT_DEN` (the
    /// contract's `sqrt_rel` brackets the true root to within that step).
    /// Model limit: a nonzero quaternion whose squared magnitude is below
    /// `(1 / SQRT_DEN)^2` yields exactly zero, and `normalize` then returns
    /// it unchanged.
    pub fn get_magnitude(self) -> (r: Rat)
        requires
            magsq4_fits(self@),
        ensures
            r@ == mag4_rep(self@),
            sqrt_rel(magsq4_v(self@), r@),
            r@.n >= 0,
    {
        let msq = self.magnitute_squared();
        let r = msq.sqrt_approx();
        proof {
            use_type_invariant(self.x);
            use_type_invariant(self.y);
            use_type_invariant(self.z);
            use_type_invariant(self.w);
            use_type_invariant(msq);
            use_type_invariant(r);
            lemma_magsq4_nonneg(self@);
            lemma_sqrt_rel_congr(msq@, magsq4_v(self@), r@, r@);
        }
        r
    }

    /// The unit quaternion in the direction of `self`, when the computed
    /// magnitude is positive; `self` unchanged otherwise.
    pub fn normalize(&self) -> (r: Quat)
        requires
            qnormalize_fits(self@),
        ensures
            r@ == qnormalize_rep(self@),
            mag4_rep(self@).n > 0 ==> q4_eqv(
                r@,
                Quatg {
                    x: rdiv(self@.x, mag4_rep(self@)),
                    y: rdiv(self@.y, mag4_rep(self@)),
                    z: rdiv(self@.z, mag4_rep(self@)),
                    w: rdiv(self@.w, mag4_rep(self@)),
                },
            ),
            mag4_rep(self@).n <= 0 ==> r@ == self@,
    {
        let mag = self.get_magnitude();
        if mag.is_pos() {
            Quat { x: self.x.div(mag), y: self.y.div(mag), z: self.z.div(mag), w: self.w.div(mag) }
        } else {
            *self
        }
    }

    /// The true inverse: conjugate scaled by the reciprocal of the squared
    /// magnitude.  The quaternion must be nonzero.
    pub fn inverse(self) -> (r: Quat)
        requires
            q4_nonzero(self@),
            qinv_fits(self@),
        ensures
            r@ == qinv_rep(self@),
            q4_eqv(r@, qinv_v(self@)),
            q4_wf(qinv_v(self@)),
            q4_nonzero(r@),
    {
        proof {
            use_type_invariant(self.x);
            use_type_invariant(self.y);
            use_type_invariant(self.z);
            use_type_invariant(self.w);
        }
        let msq = self.magnitute_squared();
        proof {
            use_type_invariant(msq);
            lemma_magsq4_nonneg(self@);
            lemma_lev_congr(msq@, magsq4_v(self@), msq@, magsq4_v(self@));
        }
        let rx = self.x.div(msq).neg();
        let ry = self.y.div(msq).neg();
        let rz = self.z.div(msq).neg();
        let rw = self.w.div(msq);
        proof {
            lemma_ops_wf_all();
            let m = magsq4_v(self@);
            lemma_rdiv_congr(self@.x, self@.x, msq@, m);
            lemma_rdiv_congr(self@.y, self@.y, msq@, m);
            lemma_rdiv_congr(self@.z, self@.z, msq@, m);
            lemma_rdiv_congr(self@.w, self@.w, msq@, m);
            lemma_norm(rdiv(self@.x, msq@));
            lemma_norm(rdiv(self@.y, msq@));
            lemma_norm(rdiv(self@.z, msq@));
            lemma_norm(rdiv(self@.w, msq@));
            lemma_eqv_trans(norm_r(rdiv(self@.x, msq@)), rdiv(self@.x, msq@), rdiv(self@.x, m));
            lemma_eqv_trans(norm_r(rdiv(self@.y, msq@)), rdiv(self@.y, msq@), rdiv(self@.y, m));
            lemma_eqv_trans(norm_r(rdiv(self@.z, msq@)), rdiv(self@.z, msq@), rdiv(self@.z, m));
            lemma_eqv_trans(norm_r(rdiv(self@.w, msq@)), rdiv(self@.w, msq@), rdiv(self@.w, m));
            lemma_rneg_congr(norm_r(rdiv(self@.x, msq@)), rdiv(self@.x, m));
            lemma_rneg_congr(norm_r(rdiv(self@.y, msq@)), rdiv(self@.y, m));
            lemma_rneg_congr(norm_r(rdiv(self@.z, msq@)), rdiv(self@.z, m));
            lemma_rdiv_zero_iff(self@.x, msq@);
            lemma_rdiv_zero_iff(self@.y, msq@);
            lemma_rdiv_zero_iff(self@.z, msq@);
            lemma_rdiv_zero_iff(self@.w, msq@);
        }
        Quat { x: rx, y: ry, z: rz, w: rw }
    }

    /// The Hamilton product `self * other`.
    pub fn mul(self, other: Quat) -> (r: Quat)
        requires
            qmul_fits(self@, other@),
        ensures
            r@ == qmul_rep(self@, other@),
            q4_eqv(r@, qmul_v(self@, other@)),
            q4_wf(qmul_v(self@, other@)),
    {
        proof {
            use_type_invariant(self.x);
            use_type_invariant(self.y);
            use_type_invariant(self.z);
            use_type_invariant(self.w);
            use_type_invariant(other.x);
            use_type_invariant(other.y);
            use_type_invariant(other.z);
            use_type_invariant(other.w);
            lemma_ops_wf_all();
        }
        let wx = self.w.mul(other.x);
        let xw = self.x.mul(other.w);
        let yz = self.y.mul(other.z);
        let zy = self.z.mul(other.y);
        let rx = Rat::comb_ppms(wx, xw, yz, zy);
        let wy = self.w.mul(other.y);
        let yw = self.y.mul(other.w);
        let zx = self.z.mul(other.x);
        let xz = self.x.mul(other.z);
        let ry = Rat::comb_ppms(wy, yw, zx, xz);
        let wz = self.w.mul(other.z);
        let zw = self.z.mul(other.w);
        let xy = self.x.mul(other.y);
        let yx = self.y.mul(other.x);
        let rz = Rat::comb_ppms(wz, zw, xy, yx);
        let ww = self.w.mul(other.w);
        let xx = self.x.mul(other.x);
        let yy = self.y.mul(other.y);
        let zz = self.z.mul(other.z);
        let rw = Rat::comb_mmms(ww, xx, yy, zz);
        proof {
            let p = self@;
            let q = other@;
            lemma_radd_congr(wx@, rmul(p.w, q.x), xw@, rmul(p.x, q.w));
            lemma_radd_congr(radd(wx@, xw@), radd(rmul(p.w, q.x), rmul(p.x, q.w)), yz@, rmul(p.y, q.z));
            lemma_rsub_congr(
                radd(radd(wx@, xw@), yz@),
                radd(radd(rmul(p.w, q.x), rmul(p.x, q.w)), rmul(p.y, q.z)),
                zy@,
                rmul(p.z, q.y),
            );
            lemma_eqv_trans(rx@, rsub(radd(radd(wx@, xw@), yz@), zy@), qmul_v(p, q).x);
            lemma_radd_congr(wy@, rmul(p.w, q.y), yw@, rmul(p.y, q.w));
            lemma_radd_congr(radd(wy@, yw@), radd(rmul(p.w, q.y), rmul(p.y, q.w)), zx@, rmul(p.z, q.x));
            lemma_rsub_congr(
                radd(radd(wy@, yw@), zx@),
                radd(radd(rmul(p.w, q.y), rmul(p.y, q.w)), rmul(p.z, q.x)),
                xz@,
                rmul(p.x, q.z),
            );
            lemma_eqv_trans(ry@, rsub(radd(radd(wy@, yw@), zx@), xz@), qmul_v(p, q).y);
            lemma_radd_congr(wz@, rmul(p.w, q.z), zw@, rmul(p.z, q.w));
            lemma_radd_congr(radd(wz@, zw@), radd(rmul(p.w, q.z), rmul(p.z, q.w)), xy@, rmul(p.x, q.y));
            lemma_rsub_congr(
                radd(radd(wz@, zw@), xy@),
                radd(radd(rmul(p.w, q.z), rmul(p.z, q.w)), rmul(p.x, q.y)),
                yx@,
                rmul(p.y, q.x),
            );
            lemma_eqv_trans(rz@, rsub(radd(radd(wz@, zw@), xy@), yx@), qmul_v(p, q).z);
            lemma_rsub_congr(ww@, rmul(p.w, q.w), xx@, rmul(p.x, q.x));
            lemma_rsub_congr(rsub(ww@, xx@), rsub(rmul(p.w, q.w), rmul(p.x, q.x)), yy@, rmul(p.y, q.y));
            lemma_rsub_congr(
                rsub(rsub(ww@, xx@), yy@),
                rsub(rsub(rmul(p.w, q.w), rmul(p.x, q.x)), rmul(p.y, q.y)),
                zz@,
                rmul(p.z, q.z),
            );
            lemma_eqv_trans(rw@, rsub(rsub(rsub(ww@, xx@), yy@), zz@), qmul_v(p, q).w);
        }
        Quat { x: rx, y: ry, z: rz, w: rw }
    }

    /// In-place Hamilton product; agrees with `mul`.
    pub fn mul_assign(&mut self, other: Quat)
        requires
            qmul_fits(old(self)@, other@),
        ensures
            final(self)@ == qmul_rep(old(self)@, other@),
            q4_eqv(final(self)@, qmul_v(old(self)@, other@)),
    {
        *self = self.mul(other);
    }

    /// Rotates the point `vec` by this quaternion: the vector part of
    /// `self * (vec, 0) * self.inverse()`.
    pub fn rotate_point(self, vec: Vec3d) -> (r: Vec3d)
        requires
            q4_nonzero(self@),
            qrot_fits(self@, vec@),
        ensures
            r@ == qrot_rep(self@, vec@),
            v3_eqv(r@, qrot_v(self@, vec@)),
            v3_wf(qrot_v(self@, vec@)),
    {
        proof {
            use_type_invariant(vec.x);
            use_type_invariant(vec.y);
            use_type_invariant(vec.z);
            use_type_invariant(self.x);
            use_type_invariant(self.y);
            use_type_invariant(self.z);
            use_type_invariant(self.w);
        }
        let q_vec = Quat { x: vec.x, y: vec.y, z: vec.z, w: Rat::zero() };
        let t = self.mul(q_vec);
        let inv = self.inverse();
        let rot = t.mul(inv);
        proof {
            lemma_ops_wf_all();
            lemma_qmul_congr(
                t@,
                qmul_v(self@, q4_pure(vec@)),
                inv@,
                qinv_v(self@),
            );
            assert(q4_eqv(rot@, qmul_v(t@, inv@)));
            use_type_invariant(rot.x);
            use_type_invariant(rot.y);
            use_type_invariant(rot.z);
            use_type_invariant(rot.w);
            lemma_eqv_trans(rot@.x, qmul_v(t@, inv@).x, qrot_v(self@, vec@).x);
            lemma_eqv_trans(rot@.y, qmul_v(t@, inv@).y, qrot_v(self@, vec@).y);
            lemma_eqv_trans(rot@.z, qmul_v(t@, inv@).z, qrot_v(self@, vec@).z);
        }
        Vec3d { x: rot.x, y: rot.y, z: rot.z }
    }

    /// Rotates each row of `mat` as a point (this rotates the row vectors
    /// individually; it is not a similarity transform of the matrix).
    pub fn rotate_matrix(self, mat: Mat3) -> (r: Mat3)
        requires
            q4_nonzero(self@),
            qrot_fits(self@, mat@.r0),
            qrot_fits(self@, mat@.r1),
            qrot_fits(self@, mat@.r2),
        ensures
            r@.r0 == qrot_rep(self@, mat@.r0) && v3_eqv(r@.r0, qrot_v(self@, mat@.r0)),
            r@.r1 == qrot_rep(self@, mat@.r1) && v3_eqv(r@.r1, qrot_v(self@, mat@.r1)),
            r@.r2 == qrot_rep(self@, mat@.r2) && v3_eqv(r@.r2, qrot_v(self@, mat@.r2)),
    {
        Mat3::new(
            self.rotate_point(mat.row0),
            self.rotate_point(mat.row1),
            self.rotate_point(mat.row2),
        )
    }

    /// The component at `idx` (0..=3 map to x, y, z, w); any other index is a
    /// contract violation.
    pub fn index(&self, idx: usize) -> (r: Rat)
        requires
            idx < 4,
        ensures
            idx == 0 ==> r@ == self@.x,
            idx == 1 ==> r@ == self@.y,
            idx == 2 ==> r@ == self@.z,
            idx == 3 ==> r@ == self@.w,
    {
        if idx == 0 {
            self.x
        } else if idx == 1 {
            self.y
        } else if idx == 2 {
            self.z
        } else {
            self.w
        }
    }

    /// Replaces the component at `idx` (0..=3 map to x, y, z, w).
    pub fn set_index(&mut self, idx: usize, value: Rat)
        requires
            idx < 4,
        ensures
            idx == 0 ==> final(self)@ == (Quatg { x: value@, ..old(self)@ }),
            idx == 1 ==> final(self)@ == (Quatg { y: value@, ..old(self)@ }),
            idx == 2 ==> final(self)@ == (Quatg { z: value@, ..old(self)@ }),
            idx == 3 ==> final(self)@ == (Quatg { w: value@, ..old(self)@ }),
    {
        if idx == 0 {
            self.x = value;
        } else if idx == 1 {
            self.y = value;
        } else if idx == 2 {
            self.z = value;
        } else {
            self.w = value;
        }
    }

    /// Scales every component by `s` (used by the inverse).
    pub fn scale(self, s: Rat) -> (r: Quat)
        requires
            rat_fits(rmul(self@.x, s@)),
            rat_fits(rmul(self@.y, s@)),
            rat_fits(rmul(self@.z, s@)),
            rat_fits(rmul(self@.w, s@)),
        ensures
            q4_eqv(
                r@,
                Quatg {
                    x: rmul(self@.x, s@),
                    y: rmul(self@.y, s@),
                    z: rmul(self@.z, s@),
                    w: rmul(self@.w, s@),
                },
            ),
    {
        proof {
            use_type_invariant(self.x);
            use_type_invariant(self.y);
            use_type_invariant(self.z);
            use_type_invariant(self.w);
            use_type_invariant(s);
            lemma_ops_wf_all();
        }
        Quat { x: self.x.mul(s), y: self.y.mul(s), z: self.z.mul(s), w: self.w.mul(s) }
    }
}

impl PartialEq for Quat {
    /// Componentwise value equality.
    fn eq(&self, other: &Quat) -> (r: bool) {
        self.x == other.x && self.y == other.y && self.z == other.z && self.w == other.w
    }
}

impl vstd::std_specs::cmp::PartialEqSpecImpl for Quat {
    open spec fn obeys_eq_spec() -> bool {
        true
    }

    open spec fn eq_spec(&self, other: &Quat) -> bool {
        q4_eqv(self@, other@)
    }
}

} // verus!
