//! Four-component vectors over exact rational scalars.

use vstd::prelude::*;
use crate::rat::{
    Rat, Ratg, lemma_eqv_trans, lemma_lev_congr, lemma_radd_congr, lemma_sqrt_rel_congr, norm_r,
    radd, rat_eqv, rat_fits, rat_wfg, rdiv, rint, rmul, rsub, sqrt_rel, sqrt_rep,
};

verus! {

/// The mathematical model of a 4-vector.
pub ghost struct Vec4g {
    pub x: Ratg,
    pub y: Ratg,
    pub z: Ratg,
    pub w: Ratg,
}

/// All four component models have positive denominators.
pub open spec fn v4_wf(v: Vec4g) -> bool {
    rat_wfg(v.x) && rat_wfg(v.y) && rat_wfg(v.z) && rat_wfg(v.w)
}

/// Componentwise value equality.
pub open spec fn v4_eqv(a: Vec4g, b: Vec4g) -> bool {
    rat_eqv(a.x, b.x) && rat_eqv(a.y, b.y) && rat_eqv(a.z, b.z) && rat_eqv(a.w, b.w)
}

/// The zero vector.
pub open spec fn v4_zero() -> Vec4g {
    Vec4g { x: rint(0), y: rint(0), z: rint(0), w: rint(0) }
}

/// Componentwise sum, difference and product; scalar division.
pub open spec fn v4_add(a: Vec4g, b: Vec4g) -> Vec4g {
    Vec4g { x: radd(a.x, b.x), y: radd(a.y, b.y), z: radd(a.z, b.z), w: radd(a.w, b.w) }
}

pub open spec fn v4_sub(a: Vec4g, b: Vec4g) -> Vec4g {
    Vec4g { x: rsub(a.x, b.x), y: rsub(a.y, b.y), z: rsub(a.z, b.z), w: rsub(a.w, b.w) }
}

pub open spec fn v4_mul(a: Vec4g, b: Vec4g) -> Vec4g {
    Vec4g { x: rmul(a.x, b.x), y: rmul(a.y, b.y), z: rmul(a.z, b.z), w: rmul(a.w, b.w) }
}

pub open spec fn v4_divs(a: Vec4g, s: Ratg) -> Vec4g {
    Vec4g { x: rdiv(a.x, s), y: rdiv(a.y, s), z: rdiv(a.z, s), w: rdiv(a.w, s) }
}

/// The vector scaled by `s`.
pub open spec fn v4_scale(a: Vec4g, s: Ratg) -> Vec4g {
    Vec4g { x: rmul(a.x, s), y: rmul(a.y, s), z: rmul(a.z, s), w: rmul(a.w, s) }
}

/// The dot product: sum of pairwise products.
pub open spec fn dot4_v(a: Vec4g, b: Vec4g) -> Ratg {
    radd(radd(radd(rmul(a.x, b.x), rmul(a.y, b.y)), rmul(a.z, b.z)), rmul(a.w, b.w))
}

/// The squared Euclidean magnitude.
pub open spec fn magsq4v_v(v: Vec4g) -> Ratg {
    dot4_v(v, v)
}

/// The component at index `i` (0 through 3).
pub open spec fn v4_index(v: Vec4g, i: int) -> Ratg {
    if i == 0 {
        v.x
    } else if i == 1 {
        v.y
    } else if i == 2 {
        v.z
    } else {
        v.w
    }
}

/// Componentwise fits for the leaf operations.
pub open spec fn v4_add_fits(a: Vec4g, b: Vec4g) -> bool {
    rat_fits(radd(a.x, b.x)) && rat_fits(radd(a.y, b.y)) && rat_fits(radd(a.z, b.z)) && rat_fits(
        radd(a.w, b.w),
    )
}

pub open spec fn v4_sub_fits(a: Vec4g, b: Vec4g) -> bool {
    rat_fits(rsub(a.x, b.x)) && rat_fits(rsub(a.y, b.y)) && rat_fits(rsub(a.z, b.z)) && rat_fits(
        rsub(a.w, b.w),
    )
}

pub open spec fn v4_mul_fits(a: Vec4g, b: Vec4g) -> bool {
    rat_fits(rmul(a.x, b.x)) && rat_fits(rmul(a.y, b.y)) && rat_fits(rmul(a.z, b.z)) && rat_fits(
        rmul(a.w, b.w),
    )
}

pub open spec fn v4_divs_fits(a: Vec4g, s: Ratg) -> bool {
    rat_fits(rdiv(a.x, s)) && rat_fits(rdiv(a.y, s)) && rat_fits(rdiv(a.z, s)) && rat_fits(
        rdiv(a.w, s),
    )
}

pub open spec fn v4_scale_fits(a: Vec4g, s: Ratg) -> bool {
    rat_fits(rmul(a.x, s)) && rat_fits(rmul(a.y, s)) && rat_fits(rmul(a.z, s)) && rat_fits(
        rmul(a.w, s),
    )
}

/// The representation stored by a scaling.
pub open spec fn scale4_rep(a: Vec4g, s: Ratg) -> Vec4g {
    Vec4g {
        x: norm_r(rmul(a.x, s)),
        y: norm_r(rmul(a.y, s)),
        z: norm_r(rmul(a.z, s)),
        w: norm_r(rmul(a.w, s)),
    }
}

/// The representation stored by a componentwise sum.
pub open spec fn add4_rep(a: Vec4g, b: Vec4g) -> Vec4g {
    Vec4g {
        x: norm_r(radd(a.x, b.x)),
        y: norm_r(radd(a.y, b.y)),
        z: norm_r(radd(a.z, b.z)),
        w: norm_r(radd(a.w, b.w)),
    }
}

/// The representation the dot product computation stores.
pub open spec fn dot4_rep(a: Vec4g, b: Vec4g) -> Ratg {
    norm_r(
        radd(
            norm_r(
                radd(
                    norm_r(radd(norm_r(rmul(a.x, b.x)), norm_r(rmul(a.y, b.y)))),
                    norm_r(rmul(a.z, b.z)),
                ),
            ),
            norm_r(rmul(a.w, b.w)),
        ),
    )
}

/// Every intermediate of the dot product fits in a `Rat`.
pub open spec fn dot4_fits(a: Vec4g, b: Vec4g) -> bool {
    &&& rat_fits(rmul(a.x, b.x)) && rat_fits(rmul(a.y, b.y)) && rat_fits(rmul(a.z, b.z))
        && rat_fits(rmul(a.w, b.w))
    &&& rat_fits(radd(norm_r(rmul(a.x, b.x)), norm_r(rmul(a.y, b.y))))
    &&& rat_fits(
        radd(
            norm_r(radd(norm_r(rmul(a.x, b.x)), norm_r(rmul(a.y, b.y)))),
            norm_r(rmul(a.z, b.z)),
        ),
    )
    &&& rat_fits(
        radd(
            norm_r(
                radd(
                    norm_r(radd(norm_r(rmul(a.x, b.x)), norm_r(rmul(a.y, b.y)))),
                    norm_r(rmul(a.z, b.z)),
                ),
            ),
            norm_r(rmul(a.w, b.w)),
        ),
    )
}

/// The representation the magnitude computation stores.
pub open spec fn mag4v_rep(v: Vec4g) -> Ratg {
    sqrt_rep(dot4_rep(v, v))
}

/// Every intermediate of the magnitude computation fits in a `Rat`.
pub open spec fn mag4v_fits(v: Vec4g) -> bool {
    dot4_fits(v, v)
}

/// The representation `normalize` returns.
pub open spec fn normalize4_rep(v: Vec4g) -> Vec4g {
    let m = mag4v_rep(v);
    if m.n > 0 {
        Vec4g {
            x: norm_r(rdiv(v.x, m)),
            y: norm_r(rdiv(v.y, m)),
            z: norm_r(rdiv(v.z, m)),
            w: norm_r(rdiv(v.w, m)),
        }
    } else {
        v
    }
}

/// Every intermediate of `normalize` fits in a `Rat`.
pub open spec fn normalize4_fits(v: Vec4g) -> bool {
    &&& mag4v_fits(v)
    &&& (mag4v_rep(v).n > 0 ==> rat_fits(rdiv(v.x, mag4v_rep(v))) && rat_fits(
        rdiv(v.y, mag4v_rep(v)),
    ) && rat_fits(rdiv(v.z, mag4v_rep(v))) && rat_fits(rdiv(v.w, mag4v_rep(v))))
}

/// A squared magnitude is never negative.
pub proof fn lemma_magsq4v_nonneg(v: Vec4g)
    requires
        v4_wf(v),
    ensures
        magsq4v_v(v).n >= 0,
        rat_wfg(magsq4v_v(v)),
        (magsq4v_v(v).n == 0) == v4_eqv(v, v4_zero()),
{
    assert(magsq4v_v(v).n >= 0 && rat_wfg(magsq4v_v(v)) && ((v.x.n == 0 && v.y.n == 0 && v.z.n
        == 0 && v.w.n == 0) <==> magsq4v_v(v).n == 0) && (v4_eqv(v, v4_zero()) <==> (v.x.n == 0
        && v.y.n == 0 && v.z.n == 0 && v.w.n == 0))) by (nonlinear_arith)
        requires
            1 <= v.x.d,
            1 <= v.y.d,
            1 <= v.z.d,
            1 <= v.w.d,
    {
    }
}

/// A 4-vector of exact rational components.
#[derive(Clone, Copy, Debug)]
pub struct Vec4d {
    pub x: Rat,
    pub y: Rat,
    pub z: Rat,
    pub w: Rat,
}

impl View for Vec4d {
    type V = Vec4g;

    open spec fn view(&self) -> Vec4g {
        Vec4g { x: self.x@, y: self.y@, z: self.z@, w: self.w@ }
    }
}

impl Vec4d {
    /// The vector `(x, y, z, w)`.
    pub fn new(x: Rat, y: Rat, z: Rat, w: Rat) -> (r: Vec4d)
        ensures
            r@ == (Vec4g { x: x@, y: y@, z: z@, w: w@ }),
    {
        Vec4d { x, y, z, w }
    }

    /// The zero vector.
    pub fn new_zero() -> (r: Vec4d)
        ensures
            r@ == v4_zero(),
    {
        Vec4d { x: Rat::zero(), y: Rat::zero(), z: Rat::zero(), w: Rat::zero() }
    }

    /// The vector scaled by `s`.
    pub fn scale(self, s: Rat) -> (r: Vec4d)
        requires
            v4_scale_fits(self@, s@),
        ensures
            r@ == scale4_rep(self@, s@),
            v4_eqv(r@, v4_scale(self@, s@)),
    {
        Vec4d { x: self.x.mul(s), y: self.y.mul(s), z: self.z.mul(s), w: self.w.mul(s) }
    }

    /// Componentwise sum.
    pub fn add(self, other: Vec4d) -> (r: Vec4d)
        requires
            v4_add_fits(self@, other@),
        ensures
            r@ == add4_rep(self@, other@),
            v4_eqv(r@, v4_add(self@, other@)),
    {
        Vec4d {
            x: self.x.add(other.x),
            y: self.y.add(other.y),
            z: self.z.add(other.z),
            w: self.w.add(other.w),
        }
    }

    /// In-place sum; agrees with `add`.
    pub fn add_assign(&mut self, other: Vec4d)
        requires
            v4_add_fits(old(self)@, other@),
        ensures
            v4_eqv(final(self)@, v4_add(old(self)@, other@)),
    {
        *self = self.add(other);
    }

    /// Componentwise difference.
    pub fn sub(self, other: Vec4d) -> (r: Vec4d)
        requires
            v4_sub_fits(self@, other@),
        ensures
            v4_eqv(r@, v4_sub(self@, other@)),
    {
        Vec4d {
            x: self.x.sub(other.x),
            y: self.y.sub(other.y),
            z: self.z.sub(other.z),
            w: self.w.sub(other.w),
        }
    }

    /// In-place difference; agrees with `sub`.
    pub fn sub_assign(&mut self, other: Vec4d)
        requires
            v4_sub_fits(old(self)@, other@),
        ensures
            v4_eqv(final(self)@, v4_sub(old(self)@, other@)),
    {
        *self = self.sub(other);
    }

    /// Componentwise product.
    pub fn mul(self, other: Vec4d) -> (r: Vec4d)
        requires
            v4_mul_fits(self@, other@),
        ensures
            v4_eqv(r@, v4_mul(self@, other@)),
    {
        Vec4d {
            x: self.x.mul(other.x),
            y: self.y.mul(other.y),
            z: self.z.mul(other.z),
            w: self.w.mul(other.w),
        }
    }

    /// In-place componentwise product; agrees with `mul`.
    pub fn mul_assign(&mut self, other: Vec4d)
        requires
            v4_mul_fits(old(self)@, other@),
        ensures
            v4_eqv(final(self)@, v4_mul(old(self)@, other@)),
    {
        *self = self.mul(other);
    }

    /// The vector divided by the scalar `s` (nonzero).
    pub fn div(self, s: Rat) -> (r: Vec4d)
        requires
            s@.n != 0,
            v4_divs_fits(self@, s@),
        ensures
            v4_eqv(r@, v4_divs(self@, s@)),
    {
        Vec4d { x: self.x.div(s), y: self.y.div(s), z: self.z.div(s), w: self.w.div(s) }
    }

    /// In-place scalar division; agrees with `div`.
    pub fn div_assign(&mut self, s: Rat)
        requires
            s@.n != 0,
            v4_divs_fits(old(self)@, s@),
        ensures
            v4_eqv(final(self)@, v4_divs(old(self)@, s@)),
    {
        *self = self.div(s);
    }

    /// The component at `idx` (0 through 3); any other index is a contract
    /// violation.
    pub fn index(&self, idx: usize) -> (r: Rat)
        requires
            idx < 4,
        ensures
            r@ == v4_index(self@, idx as int),
    {
        if idx == 0 {
            self.x
        } else if idx == 1 {
            self.y
        } else if idx == 2 {
            self.z
        } else {
            self.w
        }
    }

    /// The dot product with `other`.
    pub fn dot(&self, other: Vec4d) -> (r: Rat)
        requires
            dot4_fits(self@, other@),
        ensures
            r@ == dot4_rep(self@, other@),
            rat_eqv(r@, dot4_v(self@, other@)),
    {
        proof {
            use_type_invariant(self.x);
            use_type_invariant(self.y);
            use_type_invariant(self.z);
            use_type_invariant(self.w);
            use_type_invariant(other.x);
            use_type_invariant(other.y);
            use_type_invariant(other.z);
            use_type_invariant(other.w);
        }
        let px = self.x.mul(other.x);
        let py = self.y.mul(other.y);
        let pz = self.z.mul(other.z);
        let pw = self.w.mul(other.w);
        let s1 = px.add(py);
        let s2 = s1.add(pz);
        let s3 = s2.add(pw);
        proof {
            use_type_invariant(px);
            use_type_invariant(py);
            use_type_invariant(pz);
            use_type_invariant(pw);
            use_type_invariant(s1);
            use_type_invariant(s2);
            let gx = rmul(self@.x, other@.x);
            let gy = rmul(self@.y, other@.y);
            let gz = rmul(self@.z, other@.z);
            let gw = rmul(self@.w, other@.w);
            lemma_radd_congr(px@, gx, py@, gy);
            lemma_eqv_trans(s1@, radd(px@, py@), radd(gx, gy));
            lemma_radd_congr(s1@, radd(gx, gy), pz@, gz);
            lemma_eqv_trans(s2@, radd(s1@, pz@), radd(radd(gx, gy), gz));
            lemma_radd_congr(s2@, radd(radd(gx, gy), gz), pw@, gw);
            lemma_eqv_trans(s3@, radd(s2@, pw@), radd(radd(radd(gx, gy), gz), gw));
        }
        s3
    }

    /// The Euclidean magnitude, rounded down to a multiple of `1 / SQRT_DEN`
    /// (`sqrt_rel` in the contract brackets the true root to within that
    /// step).  Model limit: unlike the ideal norm, which is zero only for the
    /// zero vector, a nonzero vector whose squared magnitude is below
    /// `(1 / SQRT_DEN)^2` also yields exactly zero, and `normalize` then
    /// returns it unchanged.
    pub fn get_magnitude(&self) -> (r: Rat)
        requires
            mag4v_fits(self@),
        ensures
            r@ == mag4v_rep(self@),
            sqrt_rel(magsq4v_v(self@), r@),
            r@.n >= 0,
    {
        let msq = self.dot(*self);
        proof {
            use_type_invariant(self.x);
            use_type_invariant(self.y);
            use_type_invariant(self.z);
            use_type_invariant(self.w);
            use_type_invariant(msq);
            lemma_magsq4v_nonneg(self@);
            lemma_lev_congr(msq@, magsq4v_v(self@), msq@, magsq4v_v(self@));
        }
        let r = msq.sqrt_approx();
        proof {
            use_type_invariant(r);
            lemma_sqrt_rel_congr(msq@, magsq4v_v(self@), r@, r@);
        }
        r
    }

    /// The unit vector in the direction of `self`, when the computed
    /// magnitude is positive; `self` unchanged otherwise.
    pub fn normalize(&self) -> (r: Vec4d)
        requires
            normalize4_fits(self@),
        ensures
            r@ == normalize4_rep(self@),
            mag4v_rep(self@).n > 0 ==> v4_eqv(r@, v4_divs(self@, mag4v_rep(self@))),
            mag4v_rep(self@).n <= 0 ==> r@ == self@,
    {
        let mag = self.get_magnitude();
        if mag.is_pos() {
            Vec4d { x: self.x.div(mag), y: self.y.div(mag), z: self.z.div(mag), w: self.w.div(mag) }
        } else {
            *self
        }
    }
}

impl PartialEq for Vec4d {
    /// Componentwise value equality.
    fn eq(&self, other: &Vec4d) -> (r: bool) {
        self.x == other.x && self.y == other.y && self.z == other.z && self.w == other.w
    }
}

impl vstd::std_specs::cmp::PartialEqSpecImpl for Vec4d {
    open spec fn obeys_eq_spec() -> bool {
        true
    }

    open spec fn eq_spec(&self, other: &Vec4d) -> bool {
        v4_eqv(self@, other@)
    }
}

} // verus!
