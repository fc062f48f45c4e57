//! Three-component vectors over exact rational scalars.

use vstd::prelude::*;
use crate::rat::{
    Rat, Ratg, lemma_eqv_trans, lemma_lev_congr, lemma_radd_congr, lemma_rsub_congr,
    lemma_sqrt_rel_congr, norm_r, radd, rat_eqv, rat_fits, rat_ltv, rat_wfg, rdiv, rint, rmul,
    rneg, rsub, sqrt_rel, sqrt_rep,
};

verus! {

/// The mathematical model of a 3-vector: three rational models.
pub ghost struct Vec3g {
    pub x: Ratg,
    pub y: Ratg,
    pub z: Ratg,
}

/// All three component models have positive denominators.
pub open spec fn v3_wf(v: Vec3g) -> bool {
    rat_wfg(v.x) && rat_wfg(v.y) && rat_wfg(v.z)
}

/// Componentwise value equality.
pub open spec fn v3_eqv(a: Vec3g, b: Vec3g) -> bool {
    rat_eqv(a.x, b.x) && rat_eqv(a.y, b.y) && rat_eqv(a.z, b.z)
}

/// The zero vector.
pub open spec fn v3_zero() -> Vec3g {
    Vec3g { x: rint(0), y: rint(0), z: rint(0) }
}

/// Componentwise sum.
pub open spec fn v3_add(a: Vec3g, b: Vec3g) -> Vec3g {
    Vec3g { x: radd(a.x, b.x), y: radd(a.y, b.y), z: radd(a.z, b.z) }
}

/// Componentwise difference.
pub open spec fn v3_sub(a: Vec3g, b: Vec3g) -> Vec3g {
    Vec3g { x: rsub(a.x, b.x), y: rsub(a.y, b.y), z: rsub(a.z, b.z) }
}

/// Componentwise product.
pub open spec fn v3_mul(a: Vec3g, b: Vec3g) -> Vec3g {
    Vec3g { x: rmul(a.x, b.x), y: rmul(a.y, b.y), z: rmul(a.z, b.z) }
}

/// The vector scaled by `s`.
pub open spec fn v3_scale(a: Vec3g, s: Ratg) -> Vec3g {
    Vec3g { x: rmul(a.x, s), y: rmul(a.y, s), z: rmul(a.z, s) }
}

/// The vector divided by the scalar `s`.
pub open spec fn v3_divs(a: Vec3g, s: Ratg) -> Vec3g {
    Vec3g { x: rdiv(a.x, s), y: rdiv(a.y, s), z: rdiv(a.z, s) }
}

/// Componentwise negation.
pub open spec fn v3_neg(a: Vec3g) -> Vec3g {
    Vec3g { x: rneg(a.x), y: rneg(a.y), z: rneg(a.z) }
}

/// The right-hand-rule cross product.
pub open spec fn v3_cross(a: Vec3g, b: Vec3g) -> Vec3g {
    Vec3g {
        x: rsub(rmul(a.y, b.z), rmul(a.z, b.y)),
        y: rsub(rmul(a.z, b.x), rmul(a.x, b.z)),
        z: rsub(rmul(a.x, b.y), rmul(a.y, b.x)),
    }
}

/// The dot product: sum of pairwise products.
pub open spec fn dot3_v(a: Vec3g, b: Vec3g) -> Ratg {
    radd(radd(rmul(a.x, b.x), rmul(a.y, b.y)), rmul(a.z, b.z))
}

/// The squared Euclidean magnitude.
pub open spec fn magsq3_v(v: Vec3g) -> Ratg {
    dot3_v(v, v)
}

/// The component at index `i` (0, 1 or 2).
pub open spec fn v3_index(v: Vec3g, i: int) -> Ratg {
    if i == 0 {
        v.x
    } else if i == 1 {
        v.y
    } else {
        v.z
    }
}

/// The representation the dot product computation stores: each intermediate
/// is reduced to lowest terms as it is produced.
pub open spec fn dot3_rep(a: Vec3g, b: Vec3g) -> Ratg {
    norm_r(
        radd(
            norm_r(radd(norm_r(rmul(a.x, b.x)), norm_r(rmul(a.y, b.y)))),
            norm_r(rmul(a.z, b.z)),
        ),
    )
}

/// Every intermediate of the dot product fits in a `Rat`.
pub open spec fn dot3_fits(a: Vec3g, b: Vec3g) -> bool {
    &&& rat_fits(rmul(a.x, b.x))
    &&& rat_fits(rmul(a.y, b.y))
    &&& rat_fits(rmul(a.z, b.z))
    &&& rat_fits(radd(norm_r(rmul(a.x, b.x)), norm_r(rmul(a.y, b.y))))
    &&& rat_fits(
        radd(
            norm_r(radd(norm_r(rmul(a.x, b.x)), norm_r(rmul(a.y, b.y)))),
            norm_r(rmul(a.z, b.z)),
        ),
    )
}

/// The representation the squared-magnitude computation stores.
pub open spec fn magsq3_rep(v: Vec3g) -> Ratg {
    dot3_rep(v, v)
}

/// The representation the magnitude computation stores.
pub open spec fn mag3_rep(v: Vec3g) -> Ratg {
    sqrt_rep(magsq3_rep(v))
}

/// Every intermediate of the magnitude computation fits in a `Rat`.
pub open spec fn mag3_fits(v: Vec3g) -> bool {
    dot3_fits(v, v)
}

/// The representation `normalize` returns: the vector divided by the stored
/// magnitude when that magnitude is positive, the vector itself otherwise.
pub open spec fn normalize3_rep(v: Vec3g) -> Vec3g {
    let m = mag3_rep(v);
    if m.n > 0 {
        Vec3g { x: norm_r(rdiv(v.x, m)), y: norm_r(rdiv(v.y, m)), z: norm_r(rdiv(v.z, m)) }
    } else {
        v
    }
}

/// Every intermediate of `normalize` fits in a `Rat`.
pub open spec fn normalize3_fits(v: Vec3g) -> bool {
    &&& mag3_fits(v)
    &&& (mag3_rep(v).n > 0 ==> rat_fits(rdiv(v.x, mag3_rep(v))) && rat_fits(
        rdiv(v.y, mag3_rep(v)),
    ) && rat_fits(rdiv(v.z, mag3_rep(v))))
}

/// The representation the cross product computation stores.
pub open spec fn cross3_rep(a: Vec3g, b: Vec3g) -> Vec3g {
    Vec3g {
        x: norm_r(rsub(norm_r(rmul(a.y, b.z)), norm_r(rmul(a.z, b.y)))),
        y: norm_r(rsub(norm_r(rmul(a.z, b.x)), norm_r(rmul(a.x, b.z)))),
        z: norm_r(rsub(norm_r(rmul(a.x, b.y)), norm_r(rmul(a.y, b.x)))),
    }
}

/// Every intermediate of the cross product fits in a `Rat`.
pub open spec fn cross3_fits(a: Vec3g, b: Vec3g) -> bool {
    &&& rat_fits(rmul(a.y, b.z)) && rat_fits(rmul(a.z, b.y))
    &&& rat_fits(rmul(a.z, b.x)) && rat_fits(rmul(a.x, b.z))
    &&& rat_fits(rmul(a.x, b.y)) && rat_fits(rmul(a.y, b.x))
    &&& rat_fits(rsub(norm_r(rmul(a.y, b.z)), norm_r(rmul(a.z, b.y))))
    &&& rat_fits(rsub(norm_r(rmul(a.z, b.x)), norm_r(rmul(a.x, b.z))))
    &&& rat_fits(rsub(norm_r(rmul(a.x, b.y)), norm_r(rmul(a.y, b.x))))
}

/// Componentwise fits for the leaf vector operations.
pub open spec fn v3_add_fits(a: Vec3g, b: Vec3g) -> bool {
    rat_fits(radd(a.x, b.x)) && rat_fits(radd(a.y, b.y)) && rat_fits(radd(a.z, b.z))
}

pub open spec fn v3_sub_fits(a: Vec3g, b: Vec3g) -> bool {
    rat_fits(rsub(a.x, b.x)) && rat_fits(rsub(a.y, b.y)) && rat_fits(rsub(a.z, b.z))
}

pub open spec fn v3_mul_fits(a: Vec3g, b: Vec3g) -> bool {
    rat_fits(rmul(a.x, b.x)) && rat_fits(rmul(a.y, b.y)) && rat_fits(rmul(a.z, b.z))
}

pub open spec fn v3_scale_fits(a: Vec3g, s: Ratg) -> bool {
    rat_fits(rmul(a.x, s)) && rat_fits(rmul(a.y, s)) && rat_fits(rmul(a.z, s))
}

pub open spec fn v3_divs_fits(a: Vec3g, s: Ratg) -> bool {
    rat_fits(rdiv(a.x, s)) && rat_fits(rdiv(a.y, s)) && rat_fits(rdiv(a.z, s))
}

/// The representation stored by a componentwise sum.
pub open spec fn add3_rep(a: Vec3g, b: Vec3g) -> Vec3g {
    Vec3g { x: norm_r(radd(a.x, b.x)), y: norm_r(radd(a.y, b.y)), z: norm_r(radd(a.z, b.z)) }
}

/// The representation stored by a componentwise difference.
pub open spec fn sub3_rep(a: Vec3g, b: Vec3g) -> Vec3g {
    Vec3g { x: norm_r(rsub(a.x, b.x)), y: norm_r(rsub(a.y, b.y)), z: norm_r(rsub(a.z, b.z)) }
}

/// The representation stored by a scaling.
pub open spec fn scale3_rep(a: Vec3g, s: Ratg) -> Vec3g {
    Vec3g { x: norm_r(rmul(a.x, s)), y: norm_r(rmul(a.y, s)), z: norm_r(rmul(a.z, s)) }
}

/// The representation stored by a scalar division.
pub open spec fn divs3_rep(a: Vec3g, s: Ratg) -> Vec3g {
    Vec3g { x: norm_r(rdiv(a.x, s)), y: norm_r(rdiv(a.y, s)), z: norm_r(rdiv(a.z, s)) }
}

/// The world axis `get_ortho` picks for a normal: the x axis when the
/// normal's z component is large (its square exceeds 0.81), the z axis
/// otherwise.
pub open spec fn ortho_axis_rep(v: Vec3g) -> Vec3g {
    let n = normalize3_rep(v);
    if rat_ltv(Ratg { n: 81, d: 100 }, norm_r(rmul(n.z, n.z))) {
        Vec3g { x: rint(1), y: rint(0), z: rint(0) }
    } else {
        Vec3g { x: rint(0), y: rint(0), z: rint(1) }
    }
}

/// The vector both `get_ortho` outputs hold: the picked axis crossed with the
/// normalized input, normalized.
pub open spec fn ortho_out_rep(v: Vec3g) -> Vec3g {
    normalize3_rep(cross3_rep(ortho_axis_rep(v), normalize3_rep(v)))
}

/// Every intermediate of `get_ortho` fits in a `Rat`.
pub open spec fn ortho_fits(v: Vec3g) -> bool {
    let n = normalize3_rep(v);
    let w = ortho_axis_rep(v);
    &&& normalize3_fits(v)
    &&& rat_fits(rmul(n.z, n.z))
    &&& cross3_fits(w, n)
    &&& normalize3_fits(cross3_rep(w, n))
}

/// A squared magnitude is never negative (its numerator is a sum of squares
/// weighted by squared denominators).
pub proof fn lemma_magsq3_nonneg(v: Vec3g)
    requires
        v3_wf(v),
    ensures
        magsq3_v(v).n >= 0,
        rat_wfg(magsq3_v(v)),
        v3_eqv(v, v3_zero()) ==> magsq3_v(v).n == 0,
        magsq3_v(v).n == 0 ==> v3_eqv(v, v3_zero()),
{
    assert(magsq3_v(v).n >= 0 && rat_wfg(magsq3_v(v)) && ((v.x.n == 0 && v.y.n == 0 && v.z.n == 0)
        <==> magsq3_v(v).n == 0)) by (nonlinear_arith)
        requires
            1 <= v.x.d,
            1 <= v.y.d,
            1 <= v.z.d,
    {
    }
    assert(v3_eqv(v, v3_zero()) <==> (v.x.n == 0 && v.y.n == 0 && v.z.n == 0)) by (nonlinear_arith)
        requires
            1 <= v.x.d,
            1 <= v.y.d,
            1 <= v.z.d,
    {
    }
}

/// A 3-vector of exact rational components.
#[derive(Clone, Copy, Debug)]
pub struct Vec3d {
    pub x: Rat,
    pub y: Rat,
    pub z: Rat,
}

impl View for Vec3d {
    type V = Vec3g;

    open spec fn view(&self) -> Vec3g {
        Vec3g { x: self.x@, y: self.y@, z: self.z@ }
    }
}

impl Vec3d {
    /// The vector `(x, y, z)`.
    pub fn new(x: Rat, y: Rat, z: Rat) -> (r: Vec3d)
        ensures
            r@ == (Vec3g { x: x@, y: y@, z: z@ }),
    {
        Vec3d { x, y, z }
    }

    /// The zero vector.
    pub fn zero() -> (r: Vec3d)
        ensures
            r@ == v3_zero(),
    {
        Vec3d { x: Rat::zero(), y: Rat::zero(), z: Rat::zero() }
    }

    /// Componentwise sum.
    pub fn add(self, other: Vec3d) -> (r: Vec3d)
        requires
            v3_add_fits(self@, other@),
        ensures
            r@ == add3_rep(self@, other@),
            v3_eqv(r@, v3_add(self@, other@)),
            v3_wf(v3_add(self@, other@)),
    {
        Vec3d { x: self.x.add(other.x), y: self.y.add(other.y), z: self.z.add(other.z) }
    }

    /// In-place sum; agrees with `add`.
    pub fn add_assign(&mut self, other: Vec3d)
        requires
            v3_add_fits(old(self)@, other@),
        ensures
            v3_eqv(final(self)@, v3_add(old(self)@, other@)),
    {
        *self = self.add(other);
    }

    /// Componentwise difference.
    pub fn sub(self, other: Vec3d) -> (r: Vec3d)
        requires
            v3_sub_fits(self@, other@),
        ensures
            r@ == sub3_rep(self@, other@),
            v3_eqv(r@, v3_sub(self@, other@)),
            v3_wf(v3_sub(self@, other@)),
    {
        Vec3d { x: self.x.sub(other.x), y: self.y.sub(other.y), z: self.z.sub(other.z) }
    }

    /// In-place difference; agrees with `sub`.
    pub fn sub_assign(&mut self, other: Vec3d)
        requires
            v3_sub_fits(old(self)@, other@),
        ensures
            v3_eqv(final(self)@, v3_sub(old(self)@, other@)),
    {
        *self = self.sub(other);
    }

    /// Componentwise product.
    pub fn mul(self, other: Vec3d) -> (r: Vec3d)
        requires
            v3_mul_fits(self@, other@),
        ensures
            v3_eqv(r@, v3_mul(self@, other@)),
            v3_wf(v3_mul(self@, other@)),
    {
        Vec3d { x: self.x.mul(other.x), y: self.y.mul(other.y), z: self.z.mul(other.z) }
    }

    /// In-place componentwise product; agrees with `mul`.
    pub fn mul_assign(&mut self, other: Vec3d)
        requires
            v3_mul_fits(old(self)@, other@),
        ensures
            v3_eqv(final(self)@, v3_mul(old(self)@, other@)),
    {
        *self = self.mul(other);
    }

    /// The vector scaled by `s`.
    pub fn scale(self, s: Rat) -> (r: Vec3d)
        requires
            v3_scale_fits(self@, s@),
        ensures
            r@ == scale3_rep(self@, s@),
            v3_eqv(r@, v3_scale(self@, s@)),
            v3_wf(v3_scale(self@, s@)),
    {
        Vec3d { x: self.x.mul(s), y: self.y.mul(s), z: self.z.mul(s) }
    }

    /// The vector divided by the scalar `s` (nonzero).
    pub fn div(self, s: Rat) -> (r: Vec3d)
        requires
            s@.n != 0,
            v3_divs_fits(self@, s@),
        ensures
            r@ == divs3_rep(self@, s@),
            v3_eqv(r@, v3_divs(self@, s@)),
            v3_wf(v3_divs(self@, s@)),
    {
        Vec3d { x: self.x.div(s), y: self.y.div(s), z: self.z.div(s) }
    }

    /// In-place scalar division; agrees with `div`.
    pub fn div_assign(&mut self, s: Rat)
        requires
            s@.n != 0,
            v3_divs_fits(old(self)@, s@),
        ensures
            v3_eqv(final(self)@, v3_divs(old(self)@, s@)),
    {
        *self = self.div(s);
    }

    /// Componentwise negation.
    pub fn neg(self) -> (r: Vec3d)
        ensures
            r@ == v3_neg(self@),
    {
        Vec3d { x: self.x.neg(), y: self.y.neg(), z: self.z.neg() }
    }

    /// The component at `idx` (0, 1 or 2); any other index is a contract
    /// violation.
    pub fn index(&self, idx: usize) -> (r: Rat)
        requires
            idx < 3,
        ensures
            r@ == v3_index(self@, idx as int),
    {
        if idx == 0 {
            self.x
        } else if idx == 1 {
            self.y
        } else {
            self.z
        }
    }

    /// The dot product with `other`.
    pub fn dot(&self, other: Vec3d) -> (r: Rat)
        requires
            dot3_fits(self@, other@),
        ensures
            r@ == dot3_rep(self@, other@),
            rat_eqv(r@, dot3_v(self@, other@)),
            rat_wfg(dot3_v(self@, other@)),
    {
        let px = self.x.mul(other.x);
        let py = self.y.mul(other.y);
        let pz = self.z.mul(other.z);
        let s1 = px.add(py);
        let s2 = s1.add(pz);
        proof {
            use_type_invariant(self.x);
            use_type_invariant(self.y);
            use_type_invariant(self.z);
            use_type_invariant(other.x);
            use_type_invariant(other.y);
            use_type_invariant(other.z);
            use_type_invariant(px);
            use_type_invariant(py);
            use_type_invariant(pz);
            use_type_invariant(s1);
            use_type_invariant(s2);
            let gx = rmul(self@.x, other@.x);
            let gy = rmul(self@.y, other@.y);
            let gz = rmul(self@.z, other@.z);
            lemma_wf_products(self@, other@);
            lemma_radd_congr(px@, gx, py@, gy);
            lemma_eqv_trans(s1@, radd(px@, py@), radd(gx, gy));
            lemma_radd_congr(s1@, radd(gx, gy), pz@, gz);
            lemma_eqv_trans(s2@, radd(s1@, pz@), radd(radd(gx, gy), gz));
        }
        s2
    }

    /// The squared Euclidean magnitude.
    pub fn magnitude_squared(&self) -> (r: Rat)
        requires
            mag3_fits(self@),
        ensures
            r@ == magsq3_rep(self@),
            rat_eqv(r@, magsq3_v(self@)),
            r@.n >= 0,
    {
        let r = self.dot(*self);
        proof {
            use_type_invariant(self.x);
            use_type_invariant(self.y);
            use_type_invariant(self.z);
            use_type_invariant(r);
            lemma_magsq3_nonneg(self@);
            lemma_lev_congr(r@, magsq3_v(self@), r@, magsq3_v(self@));
        }
        r
    }

    /// The Euclidean magnitude, rounded down to a multiple of `1 / SQRT_DEN`
    /// (`sqrt_rel` in the contract brackets the true root to within that
    /// step).  Model limit: unlike the ideal norm, which is zero only for the
    /// zero vector, a nonzero vector whose squared magnitude is below
    /// `(1 / SQRT_DEN)^2` also yields exactly zero, and `normalize` then
    /// returns it unchanged.
    pub fn get_magnitude(&self) -> (r: Rat)
        requires
            mag3_fits(self@),
        ensures
            r@ == mag3_rep(self@),
            sqrt_rel(magsq3_v(self@), r@),
            r@.n >= 0,
    {
        let msq = self.magnitude_squared();
        let r = msq.sqrt_approx();
        proof {
            use_type_invariant(self.x);
            use_type_invariant(self.y);
            use_type_invariant(self.z);
            use_type_invariant(msq);
            use_type_invariant(r);
            lemma_magsq3_nonneg(self@);
            lemma_sqrt_rel_congr(msq@, magsq3_v(self@), r@, r@);
        }
        r
    }

    /// The unit vector in the direction of `self`, when the computed
    /// magnitude is positive; `self` unchanged otherwise (in particular, the
    /// zero vector normalizes to itself).
    pub fn normalize(&self) -> (r: Vec3d)
        requires
            normalize3_fits(self@),
        ensures
            r@ == normalize3_rep(self@),
            mag3_rep(self@).n > 0 ==> v3_eqv(r@, v3_divs(self@, mag3_rep(self@))),
            mag3_rep(self@).n <= 0 ==> r@ == self@,
    {
        let mag = self.get_magnitude();
        if mag.is_pos() {
            Vec3d { x: self.x.div(mag), y: self.y.div(mag), z: self.z.div(mag) }
        } else {
            *self
        }
    }

    /// Derives two further axes from `self` taken as a normal, writing them
    /// to `u` and `v`: a world axis not nearly parallel to the normal is
    /// picked, crossed with the normalized normal, and normalized.  As
    /// specified, both outputs are produced by the same cross product, so
    /// they are equal rather than mutually orthogonal.
    pub fn get_ortho(self, u: &mut Vec3d, v: &mut Vec3d)
        requires
            ortho_fits(self@),
        ensures
            final(u)@ == ortho_out_rep(self@),
            final(v)@ == ortho_out_rep(self@),
    {
        let n = self.normalize();
        let t = n.z.mul(n.z);
        let threshold = Rat::exact(81, 100);
        let w = if threshold.lt(t) {
            Vec3d::new(Rat::one(), Rat::zero(), Rat::zero())
        } else {
            Vec3d::new(Rat::zero(), Rat::zero(), Rat::one())
        };
        *u = w.cross(n).normalize();
        *v = w.cross(n).normalize();
    }

    /// The cross product with `other`, by the right-hand rule.
    pub fn cross(self, other: Vec3d) -> (r: Vec3d)
        requires
            cross3_fits(self@, other@),
        ensures
            r@ == cross3_rep(self@, other@),
            v3_eqv(r@, v3_cross(self@, other@)),
            v3_wf(v3_cross(self@, other@)),
    {
        let xa = self.y.mul(other.z);
        let xb = self.z.mul(other.y);
        let ya = self.z.mul(other.x);
        let yb = self.x.mul(other.z);
        let za = self.x.mul(other.y);
        let zb = self.y.mul(other.x);
        let rx = xa.sub(xb);
        let ry = ya.sub(yb);
        let rz = za.sub(zb);
        proof {
            use_type_invariant(self.x);
            use_type_invariant(self.y);
            use_type_invariant(self.z);
            use_type_invariant(other.x);
            use_type_invariant(other.y);
            use_type_invariant(other.z);
            use_type_invariant(xa);
            use_type_invariant(xb);
            use_type_invariant(ya);
            use_type_invariant(yb);
            use_type_invariant(za);
            use_type_invariant(zb);
            lemma_wf_products(self@, other@);
            lemma_wf_products(other@, self@);
            lemma_rsub_congr(xa@, rmul(self@.y, other@.z), xb@, rmul(self@.z, other@.y));
            lemma_eqv_trans(
                rx@,
                rsub(xa@, xb@),
                rsub(rmul(self@.y, other@.z), rmul(self@.z, other@.y)),
            );
            lemma_rsub_congr(ya@, rmul(self@.z, other@.x), yb@, rmul(self@.x, other@.z));
            lemma_eqv_trans(
                ry@,
                rsub(ya@, yb@),
                rsub(rmul(self@.z, other@.x), rmul(self@.x, other@.z)),
            );
            lemma_rsub_congr(za@, rmul(self@.x, other@.y), zb@, rmul(self@.y, other@.x));
            lemma_eqv_trans(
                rz@,
                rsub(za@, zb@),
                rsub(rmul(self@.x, other@.y), rmul(self@.y, other@.x)),
            );
        }
        Vec3d { x: rx, y: ry, z: rz }
    }
}

/// Products of well-formed components are well formed (denominators stay
/// positive).
pub proof fn lemma_wf_products(a: Vec3g, b: Vec3g)
    requires
        v3_wf(a),
        v3_wf(b),
    ensures
        rat_wfg(rmul(a.x, b.x)),
        rat_wfg(rmul(a.y, b.y)),
        rat_wfg(rmul(a.z, b.z)),
        rat_wfg(rmul(a.y, b.z)),
        rat_wfg(rmul(a.z, b.y)),
        rat_wfg(rmul(a.z, b.x)),
        rat_wfg(rmul(a.x, b.z)),
        rat_wfg(rmul(a.x, b.y)),
        rat_wfg(rmul(a.y, b.x)),
{
    assert(forall|p: Ratg, q: Ratg|
        1 <= p.d && 1 <= q.d ==> 1 <= #[trigger] rmul(p, q).d) by {
        assert forall|p: Ratg, q: Ratg|
            1 <= p.d && 1 <= q.d implies 1 <= #[trigger] rmul(p, q).d by {
            assert(1 <= p.d * q.d) by (nonlinear_arith)
                requires
                    1 <= p.d,
                    1 <= q.d,
            {
            }
        }
    }
}

impl PartialEq for Vec3d {
    /// Componentwise value equality.
    fn eq(&self, other: &Vec3d) -> (r: bool) {
        self.x == other.x && self.y == other.y && self.z == other.z
    }
}

impl vstd::std_specs::cmp::PartialEqSpecImpl for Vec3d {
    open spec fn obeys_eq_spec() -> bool {
        true
    }

    open spec fn eq_spec(&self, other: &Vec3d) -> bool {
        v3_eqv(self@, other@)
    }
}

} // verus!
