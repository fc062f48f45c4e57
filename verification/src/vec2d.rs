//! Two-component vectors over exact rational scalars.

use vstd::prelude::*;
use crate::rat::{
    Rat, Ratg, lemma_eqv_trans, lemma_lev_congr, lemma_radd_congr, lemma_sqrt_rel_congr, norm_r,
    radd, rat_eqv, rat_fits, rat_wfg, rdiv, rint, rmul, rsub, sqrt_rel, sqrt_rep,
};

verus! {

/// The mathematical model of a 2-vector.
pub ghost struct Vec2g {
    pub x: Ratg,
    pub y: Ratg,
}

/// Both component models have positive denominators.
pub open spec fn v2_wf(v: Vec2g) -> bool {
    rat_wfg(v.x) && rat_wfg(v.y)
}

/// Componentwise value equality.
pub open spec fn v2_eqv(a: Vec2g, b: Vec2g) -> bool {
    rat_eqv(a.x, b.x) && rat_eqv(a.y, b.y)
}

/// The zero vector.
pub open spec fn v2_zero() -> Vec2g {
    Vec2g { x: rint(0), y: rint(0) }
}

/// Componentwise sum, difference and product; scaling and scalar division.
pub open spec fn v2_add(a: Vec2g, b: Vec2g) -> Vec2g {
    Vec2g { x: radd(a.x, b.x), y: radd(a.y, b.y) }
}

pub open spec fn v2_sub(a: Vec2g, b: Vec2g) -> Vec2g {
    Vec2g { x: rsub(a.x, b.x), y: rsub(a.y, b.y) }
}

pub open spec fn v2_mul(a: Vec2g, b: Vec2g) -> Vec2g {
    Vec2g { x: rmul(a.x, b.x), y: rmul(a.y, b.y) }
}

pub open spec fn v2_divs(a: Vec2g, s: Ratg) -> Vec2g {
    Vec2g { x: rdiv(a.x, s), y: rdiv(a.y, s) }
}

/// The vector scaled by `s`.
pub open spec fn v2_scale(a: Vec2g, s: Ratg) -> Vec2g {
    Vec2g { x: rmul(a.x, s), y: rmul(a.y, s) }
}

/// The squared Euclidean magnitude.
pub open spec fn magsq2_v(v: Vec2g) -> Ratg {
    radd(rmul(v.x, v.x), rmul(v.y, v.y))
}

/// Componentwise fits for the leaf operations.
pub open spec fn v2_add_fits(a: Vec2g, b: Vec2g) -> bool {
    rat_fits(radd(a.x, b.x)) && rat_fits(radd(a.y, b.y))
}

pub open spec fn v2_sub_fits(a: Vec2g, b: Vec2g) -> bool {
    rat_fits(rsub(a.x, b.x)) && rat_fits(rsub(a.y, b.y))
}

pub open spec fn v2_mul_fits(a: Vec2g, b: Vec2g) -> bool {
    rat_fits(rmul(a.x, b.x)) && rat_fits(rmul(a.y, b.y))
}

pub open spec fn v2_divs_fits(a: Vec2g, s: Ratg) -> bool {
    rat_fits(rdiv(a.x, s)) && rat_fits(rdiv(a.y, s))
}

pub open spec fn v2_scale_fits(a: Vec2g, s: Ratg) -> bool {
    rat_fits(rmul(a.x, s)) && rat_fits(rmul(a.y, s))
}

/// The representation stored by a scaling.
pub open spec fn scale2_rep(a: Vec2g, s: Ratg) -> Vec2g {
    Vec2g { x: norm_r(rmul(a.x, s)), y: norm_r(rmul(a.y, s)) }
}

/// The representation stored by a componentwise sum.
pub open spec fn add2_rep(a: Vec2g, b: Vec2g) -> Vec2g {
    Vec2g { x: norm_r(radd(a.x, b.x)), y: norm_r(radd(a.y, b.y)) }
}

/// The representation the squared-magnitude computation stores.
pub open spec fn magsq2_rep(v: Vec2g) -> Ratg {
    norm_r(radd(norm_r(rmul(v.x, v.x)), norm_r(rmul(v.y, v.y))))
}

/// The representation the magnitude computation stores.
pub open spec fn mag2_rep(v: Vec2g) -> Ratg {
    sqrt_rep(magsq2_rep(v))
}

/// Every intermediate of the magnitude computation fits in a `Rat`.
pub open spec fn mag2_fits(v: Vec2g) -> bool {
    &&& rat_fits(rmul(v.x, v.x))
    &&& rat_fits(rmul(v.y, v.y))
    &&& rat_fits(radd(norm_r(rmul(v.x, v.x)), norm_r(rmul(v.y, v.y))))
}

/// The representation `normalize` returns.
pub open spec fn normalize2_rep(v: Vec2g) -> Vec2g {
    let m = mag2_rep(v);
    if m.n > 0 {
        Vec2g { x: norm_r(rdiv(v.x, m)), y: norm_r(rdiv(v.y, m)) }
    } else {
        v
    }
}

/// Every intermediate of `normalize` fits in a `Rat`.
pub open spec fn normalize2_fits(v: Vec2g) -> bool {
    &&& mag2_fits(v)
    &&& (mag2_rep(v).n > 0 ==> rat_fits(rdiv(v.x, mag2_rep(v))) && rat_fits(
        rdiv(v.y, mag2_rep(v)),
    ))
}

/// A squared magnitude is never negative.
pub proof fn lemma_magsq2_nonneg(v: Vec2g)
    requires
        v2_wf(v),
    ensures
        magsq2_v(v).n >= 0,
        rat_wfg(magsq2_v(v)),
        (magsq2_v(v).n == 0) == v2_eqv(v, v2_zero()),
{
    assert(magsq2_v(v).n >= 0 && rat_wfg(magsq2_v(v)) && ((v.x.n == 0 && v.y.n == 0)
        <==> magsq2_v(v).n == 0) && (v2_eqv(v, v2_zero()) <==> (v.x.n == 0 && v.y.n == 0)))
        by (nonlinear_arith)
        requires
            1 <= v.x.d,
            1 <= v.y.d,
    {
    }
}

/// A 2-vector of exact rational components.
#[derive(Clone, Copy, Debug)]
pub struct Vec2d {
    pub x: Rat,
    pub y: Rat,
}

impl View for Vec2d {
    type V = Vec2g;

    open spec fn view(&self) -> Vec2g {
        Vec2g { x: self.x@, y: self.y@ }
    }
}

impl Vec2d {
    /// The vector `(x, y)`.
    pub fn new(x: Rat, y: Rat) -> (r: Vec2d)
        ensures
            r@ == (Vec2g { x: x@, y: y@ }),
    {
        Vec2d { x, y }
    }

    /// The zero vector.
    pub fn zero() -> (r: Vec2d)
        ensures
            r@ == v2_zero(),
    {
        Vec2d { x: Rat::zero(), y: Rat::zero() }
    }

    /// Componentwise sum.
    pub fn add(self, other: Vec2d) -> (r: Vec2d)
        requires
            v2_add_fits(self@, other@),
        ensures
            r@ == add2_rep(self@, other@),
            v2_eqv(r@, v2_add(self@, other@)),
    {
        Vec2d { x: self.x.add(other.x), y: self.y.add(other.y) }
    }

    /// The vector scaled by `s`.
    pub fn scale(self, s: Rat) -> (r: Vec2d)
        requires
            v2_scale_fits(self@, s@),
        ensures
            r@ == scale2_rep(self@, s@),
            v2_eqv(r@, v2_scale(self@, s@)),
    {
        Vec2d { x: self.x.mul(s), y: self.y.mul(s) }
    }

    /// In-place sum; agrees with `add`.
    pub fn add_assign(&mut self, other: Vec2d)
        requires
            v2_add_fits(old(self)@, other@),
        ensures
            v2_eqv(final(self)@, v2_add(old(self)@, other@)),
    {
        *self = self.add(other);
    }

    /// Componentwise difference.
    pub fn sub(self, other: Vec2d) -> (r: Vec2d)
        requires
            v2_sub_fits(self@, other@),
        ensures
            v2_eqv(r@, v2_sub(self@, other@)),
    {
        Vec2d { x: self.x.sub(other.x), y: self.y.sub(other.y) }
    }

    /// In-place difference; agrees with `sub`.
    pub fn sub_assign(&mut self, other: Vec2d)
        requires
            v2_sub_fits(old(self)@, other@),
        ensures
            v2_eqv(final(self)@, v2_sub(old(self)@, other@)),
    {
        *self = self.sub(other);
    }

    /// Componentwise product.
    pub fn mul(self, other: Vec2d) -> (r: Vec2d)
        requires
            v2_mul_fits(self@, other@),
        ensures
            v2_eqv(r@, v2_mul(self@, other@)),
    {
        Vec2d { x: self.x.mul(other.x), y: self.y.mul(other.y) }
    }

    /// In-place componentwise product; agrees with `mul`.
    pub fn mul_assign(&mut self, other: Vec2d)
        requires
            v2_mul_fits(old(self)@, other@),
        ensures
            v2_eqv(final(self)@, v2_mul(old(self)@, other@)),
    {
        *self = self.mul(other);
    }

    /// The vector divided by the scalar `s` (nonzero).
    pub fn div(self, s: Rat) -> (r: Vec2d)
        requires
            s@.n != 0,
            v2_divs_fits(self@, s@),
        ensures
            v2_eqv(r@, v2_divs(self@, s@)),
    {
        Vec2d { x: self.x.div(s), y: self.y.div(s) }
    }

    /// In-place scalar division; agrees with `div`.
    pub fn div_assign(&mut self, s: Rat)
        requires
            s@.n != 0,
            v2_divs_fits(old(self)@, s@),
        ensures
            v2_eqv(final(self)@, v2_divs(old(self)@, s@)),
    {
        *self = self.div(s);
    }

    /// The Euclidean magnitude, rounded down to a multiple of `1 / SQRT_DEN`
    /// (`sqrt_rel` in the contract brackets the true root to within that
    /// step).  Model limit: unlike the ideal norm, which is zero only for the
    /// zero vector, a nonzero vector whose squared magnitude is below
    /// `(1 / SQRT_DEN)^2` also yields exactly zero, and `normalize` then
    /// returns it unchanged.
    pub fn get_magnitude(&self) -> (r: Rat)
        requires
            mag2_fits(self@),
        ensures
            r@ == mag2_rep(self@),
            sqrt_rel(magsq2_v(self@), r@),
            r@.n >= 0,
    {
        proof {
            use_type_invariant(self.x);
            use_type_invariant(self.y);
        }
        let xx = self.x.mul(self.x);
        let yy = self.y.mul(self.y);
        let msq = xx.add(yy);
        proof {
            use_type_invariant(xx);
            use_type_invariant(yy);
            use_type_invariant(msq);
            let gx = rmul(self@.x, self@.x);
            let gy = rmul(self@.y, self@.y);
            lemma_radd_congr(xx@, gx, yy@, gy);
            lemma_eqv_trans(msq@, radd(xx@, yy@), radd(gx, gy));
            lemma_magsq2_nonneg(self@);
            lemma_lev_congr(msq@, magsq2_v(self@), msq@, magsq2_v(self@));
        }
        let r = msq.sqrt_approx();
        proof {
            use_type_invariant(r);
            lemma_sqrt_rel_congr(msq@, magsq2_v(self@), r@, r@);
        }
        r
    }

    /// The unit vector in the direction of `self`, when the computed
    /// magnitude is positive; `self` unchanged otherwise.
    pub fn normalize(&self) -> (r: Vec2d)
        requires
            normalize2_fits(self@),
        ensures
            r@ == normalize2_rep(self@),
            mag2_rep(self@).n > 0 ==> v2_eqv(r@, v2_divs(self@, mag2_rep(self@))),
            mag2_rep(self@).n <= 0 ==> r@ == self@,
    {
        let mag = self.get_magnitude();
        if mag.is_pos() {
            Vec2d { x: self.x.div(mag), y: self.y.div(mag) }
        } else {
            *self
        }
    }
}

impl PartialEq for Vec2d {
    /// Componentwise value equality.
    fn eq(&self, other: &Vec2d) -> (r: bool) {
        self.x == other.x && self.y == other.y
    }
}

impl vstd::std_specs::cmp::PartialEqSpecImpl for Vec2d {
    open spec fn obeys_eq_spec() -> bool {
        true
    }

    open spec fn eq_spec(&self, other: &Vec2d) -> bool {
        v2_eqv(self@, other@)
    }
}

} // verus!
