//! Exact rational scalars.
//!
//! Every quantity in the kernel is a ratio of two machine integers, kept in
//! lowest terms with a positive denominator.  The ghost model of a value is
//! `Ratg`, a pair of unbounded integers; the arithmetic on models (`radd`,
//! `rsub`, `rmul`, `rdiv`, `rneg`) is exact, and two models denote the same
//! rational exactly when `rat_eqv` holds (cross multiplication).

use vstd::prelude::*;
use vstd::math::abs;

verus! {

/// Largest numerator magnitude and largest denominator a `Rat` may store
/// (2^62, so that sums of two products of stored values fit in `i128`).
pub const RAT_BOUND: i64 = 0x4000_0000_0000_0000;

/// The mathematical model of a rational: numerator `n` over denominator `d`.
/// A well-formed model has `d >= 1`.
pub ghost struct Ratg {
    pub n: int,
    pub d: int,
}

/// The model is well formed: positive denominator.
pub open spec fn rat_wfg(a: Ratg) -> bool {
    1 <= a.d
}

/// Both components of the model are small enough to be stored in a `Rat`.
pub open spec fn rat_bndg(a: Ratg) -> bool {
    &&& -(RAT_BOUND as int) <= a.n <= RAT_BOUND as int
    &&& 1 <= a.d <= RAT_BOUND as int
}

/// The two models denote the same rational number.
pub open spec fn rat_eqv(a: Ratg, b: Ratg) -> bool {
    a.n * b.d == b.n * a.d
}

/// The rational `a` is at most the rational `b` (assuming positive denominators).
pub open spec fn rat_lev(a: Ratg, b: Ratg) -> bool {
    a.n * b.d <= b.n * a.d
}

/// The rational `a` is strictly below the rational `b` (assuming positive denominators).
pub open spec fn rat_ltv(a: Ratg, b: Ratg) -> bool {
    a.n * b.d < b.n * a.d
}

/// Exact sum of two models.
pub open spec fn radd(a: Ratg, b: Ratg) -> Ratg {
    Ratg { n: a.n * b.d + b.n * a.d, d: a.d * b.d }
}

/// Exact difference of two models.
pub open spec fn rsub(a: Ratg, b: Ratg) -> Ratg {
    Ratg { n: a.n * b.d - b.n * a.d, d: a.d * b.d }
}

/// Exact product of two models.
pub open spec fn rmul(a: Ratg, b: Ratg) -> Ratg {
    Ratg { n: a.n * b.n, d: a.d * b.d }
}

/// Exact quotient of two models (the divisor's numerator must be nonzero;
/// the sign moves to the numerator so the denominator stays positive).
pub open spec fn rdiv(a: Ratg, b: Ratg) -> Ratg {
    if b.n >= 0 {
        Ratg { n: a.n * b.d, d: a.d * b.n }
    } else {
        Ratg { n: -(a.n * b.d), d: a.d * -b.n }
    }
}

/// Exact negation of a model.
pub open spec fn rneg(a: Ratg) -> Ratg {
    Ratg { n: -a.n, d: a.d }
}

/// The integer `n` as a rational model.
pub open spec fn rint(n: int) -> Ratg {
    Ratg { n: n, d: 1 }
}

/// Greatest common divisor by Euclid's recursion.
pub open spec fn gcd_s(a: nat, b: nat) -> nat
    decreases b,
{
    if b == 0 {
        a
    } else {
        gcd_s(b, a % b)
    }
}

/// The model reduced to lowest terms.
pub open spec fn norm_r(p: Ratg) -> Ratg {
    let g = gcd_s(abs(p.n), p.d as nat) as int;
    Ratg { n: p.n / g, d: p.d / g }
}

/// The reduced form of the model fits in a `Rat`.
pub open spec fn rat_fits(p: Ratg) -> bool {
    rat_bndg(norm_r(p))
}

/// `p` is `q` scaled up by a positive integer factor (so they denote the
/// same rational, and `q`'s components are no larger than `p`'s).
pub open spec fn scale_wit(q: Ratg, p: Ratg, k: int) -> bool {
    1 <= k && p.n == q.n * k && p.d == q.d * k
}

pub open spec fn scaled(q: Ratg, p: Ratg) -> bool {
    exists|k: int| scale_wit(q, p, k)
}

/// The gcd divides both arguments and is positive when the second is.
pub proof fn lemma_gcd_divides(a: nat, b: nat)
    requires
        1 <= b,
    ensures
        1 <= gcd_s(a, b) <= b,
        (a as int) % (gcd_s(a, b) as int) == 0,
        (b as int) % (gcd_s(a, b) as int) == 0,
    decreases b,
{
    let r = a % b;
    if r == 0 {
        assert(gcd_s(a, b) == gcd_s(b, 0)) by {
            assert(gcd_s(b, r) == b);
        }
        assert((b as int) % (b as int) == 0) by {
            vstd::arithmetic::div_mod::lemma_mod_self_0(b as int);
        }
    } else {
        lemma_gcd_divides(b, r);
        let g = gcd_s(b, r) as int;
        assert(gcd_s(a, b) == gcd_s(b, r));
        // a == b * (a / b) + r, and g divides both b and r, so g divides a.
        vstd::arithmetic::div_mod::lemma_fundamental_div_mod(a as int, b as int);
        let qb = a as int / b as int;
        lemma_exact_div(b as int, g);
        lemma_exact_div(r as int, g);
        let kb = b as int / g;
        let kr = r as int / g;
        assert(a as int == g * (kb * qb + kr)) by (nonlinear_arith)
            requires
                a as int == b as int * qb + r as int,
                b as int == g * kb,
                r as int == g * kr,
        {
        }
        assert((g * (kb * qb + kr)) % g == 0) by {
            vstd::arithmetic::div_mod::lemma_mod_multiples_basic(kb * qb + kr, g);
        }
    }
}

/// If `g >= 1` divides `x` (zero remainder), then `x` is exactly `g` times
/// the quotient.
pub proof fn lemma_exact_div(x: int, g: int)
    requires
        1 <= g,
        x % g == 0,
    ensures
        x == g * (x / g),
{
    vstd::arithmetic::div_mod::lemma_fundamental_div_mod(x, g);
}

/// Dividing a known multiple of `g` by `g` recovers the factor.
pub proof fn lemma_div_of_multiple(q: int, g: int)
    requires
        1 <= g,
    ensures
        (g * q) / g == q,
        (g * q) % g == 0,
{
    vstd::arithmetic::div_mod::lemma_div_multiples_vanish(q, g);
    assert(g * q == q * g) by (nonlinear_arith);
    vstd::arithmetic::div_mod::lemma_mod_multiples_basic(q, g);
}

/// Reduction to lowest terms keeps the value, keeps the denominator positive,
/// and never grows either component.
pub proof fn lemma_norm(p: Ratg)
    requires
        1 <= p.d,
    ensures
        1 <= norm_r(p).d <= p.d,
        abs(norm_r(p).n) <= abs(p.n),
        scaled(norm_r(p), p),
        rat_eqv(norm_r(p), p),
        rat_eqv(p, norm_r(p)),
{
    let g = gcd_s(abs(p.n), p.d as nat) as int;
    lemma_gcd_divides(abs(p.n), p.d as nat);
    let q = norm_r(p);
    // p.d == g * q.d
    lemma_exact_div(p.d, g);
    // p.n == g * q.n, via the absolute value.
    if p.n >= 0 {
        lemma_exact_div(p.n, g);
    } else {
        lemma_exact_div(-p.n, g);
        let m = (-p.n) / g;
        assert(p.n == g * -m) by (nonlinear_arith)
            requires
                -p.n == g * m,
        {
        }
        lemma_div_of_multiple(-m, g);
        assert(p.n / g == -m);
    }
    assert(p.n == q.n * g && p.d == q.d * g) by (nonlinear_arith)
        requires
            p.n == g * q.n,
            p.d == g * q.d,
    {
    }
    assert(scale_wit(q, p, g));
    assert(1 <= q.d && q.d <= p.d && abs(q.n) <= abs(p.n)) by (nonlinear_arith)
        requires
            1 <= g <= p.d,
            1 <= p.d,
            p.n == q.n * g,
            p.d == q.d * g,
    {
    }
    assert(q.n * p.d == p.n * q.d) by (nonlinear_arith)
        requires
            p.n == q.n * g,
            p.d == q.d * g,
    {
    }
}

/// A bounded model fits as it stands.
pub proof fn lemma_fits_from_bnd(p: Ratg)
    requires
        rat_bndg(p),
    ensures
        rat_fits(p),
{
    lemma_norm(p);
}

/// Value equality is transitive (the middle denominator must be positive).
pub proof fn lemma_eqv_trans(a: Ratg, b: Ratg, c: Ratg)
    requires
        rat_eqv(a, b),
        rat_eqv(b, c),
        1 <= b.d,
    ensures
        rat_eqv(a, c),
{
    assert(a.n * c.d == c.n * a.d) by (nonlinear_arith)
        requires
            a.n * b.d == b.n * a.d,
            b.n * c.d == c.n * b.d,
            1 <= b.d,
    {
    }
}

/// Sums of equal rationals are equal.
pub proof fn lemma_radd_congr(a: Ratg, a2: Ratg, b: Ratg, b2: Ratg)
    requires
        rat_eqv(a, a2),
        rat_eqv(b, b2),
        1 <= a.d,
        1 <= a2.d,
        1 <= b.d,
        1 <= b2.d,
    ensures
        rat_eqv(radd(a, b), radd(a2, b2)),
        rat_wfg(radd(a, b)),
        rat_wfg(radd(a2, b2)),
{
    assert(1 <= a.d * b.d && 1 <= a2.d * b2.d) by (nonlinear_arith)
        requires
            1 <= a.d && 1 <= b.d && 1 <= a2.d && 1 <= b2.d,
    {
    }
    broadcast use vstd::arithmetic::mul::group_mul_properties;

    assert((a.n * b.d + b.n * a.d) * (a2.d * b2.d) == (a.n * a2.d) * (b.d * b2.d) + (b.n * b2.d)
        * (a.d * a2.d));
    assert((a2.n * b2.d + b2.n * a2.d) * (a.d * b.d) == (a2.n * a.d) * (b.d * b2.d) + (b2.n * b.d)
        * (a.d * a2.d));
    assert((a.n * a2.d) * (b.d * b2.d) + (b.n * b2.d) * (a.d * a2.d) == (a2.n * a.d) * (b.d * b2.d)
        + (b2.n * b.d) * (a.d * a2.d)) by (nonlinear_arith)
        requires
            a.n * a2.d == a2.n * a.d,
            b.n * b2.d == b2.n * b.d,
    {
    }
}

/// Differences of equal rationals are equal.
pub proof fn lemma_rsub_congr(a: Ratg, a2: Ratg, b: Ratg, b2: Ratg)
    requires
        rat_eqv(a, a2),
        rat_eqv(b, b2),
        1 <= a.d,
        1 <= a2.d,
        1 <= b.d,
        1 <= b2.d,
    ensures
        rat_eqv(rsub(a, b), rsub(a2, b2)),
        rat_wfg(rsub(a, b)),
        rat_wfg(rsub(a2, b2)),
{
    assert(1 <= a.d * b.d && 1 <= a2.d * b2.d) by (nonlinear_arith)
        requires
            1 <= a.d && 1 <= b.d && 1 <= a2.d && 1 <= b2.d,
    {
    }
    broadcast use vstd::arithmetic::mul::group_mul_properties;

    assert((a.n * b.d - b.n * a.d) * (a2.d * b2.d) == (a.n * a2.d) * (b.d * b2.d) - (b.n * b2.d)
        * (a.d * a2.d));
    assert((a2.n * b2.d - b2.n * a2.d) * (a.d * b.d) == (a2.n * a.d) * (b.d * b2.d) - (b2.n * b.d)
        * (a.d * a2.d));
    assert((a.n * a2.d) * (b.d * b2.d) - (b.n * b2.d) * (a.d * a2.d) == (a2.n * a.d) * (b.d * b2.d)
        - (b2.n * b.d) * (a.d * a2.d)) by (nonlinear_arith)
        requires
            a.n * a2.d == a2.n * a.d,
            b.n * b2.d == b2.n * b.d,
    {
    }
}

/// Products of equal rationals are equal.
pub proof fn lemma_rmul_congr(a: Ratg, a2: Ratg, b: Ratg, b2: Ratg)
    by (nonlinear_arith)
    requires
        rat_eqv(a, a2),
        rat_eqv(b, b2),
        1 <= a.d,
        1 <= a2.d,
        1 <= b.d,
        1 <= b2.d,
    ensures
        rat_eqv(rmul(a, b), rmul(a2, b2)),
        rat_wfg(rmul(a, b)),
        rat_wfg(rmul(a2, b2)),
{
}

/// Quotients of equal rationals are equal (nonzero divisors).
pub proof fn lemma_rdiv_congr(a: Ratg, a2: Ratg, b: Ratg, b2: Ratg)
    requires
        rat_eqv(a, a2),
        rat_eqv(b, b2),
        1 <= a.d,
        1 <= a2.d,
        1 <= b.d,
        1 <= b2.d,
        b.n != 0,
    ensures
        b2.n != 0,
        rat_eqv(rdiv(a, b), rdiv(a2, b2)),
        rat_wfg(rdiv(a, b)),
        rat_wfg(rdiv(a2, b2)),
{
    assert((b.n > 0) == (b2.n > 0) && (b.n == 0) == (b2.n == 0)) by (nonlinear_arith)
        requires
            b.n * b2.d == b2.n * b.d,
            1 <= b.d,
            1 <= b2.d,
    {
    }
    // A quotient is a product with the reciprocal of the divisor.
    let ib = if b.n >= 0 {
        Ratg { n: b.d, d: b.n }
    } else {
        Ratg { n: -b.d, d: -b.n }
    };
    let ib2 = if b2.n >= 0 {
        Ratg { n: b2.d, d: b2.n }
    } else {
        Ratg { n: -b2.d, d: -b2.n }
    };
    assert(rat_eqv(ib, ib2)) by (nonlinear_arith)
        requires
            b.n * b2.d == b2.n * b.d,
            ib == (if b.n >= 0 {
                Ratg { n: b.d, d: b.n }
            } else {
                Ratg { n: -b.d, d: -b.n }
            }),
            ib2 == (if b2.n >= 0 {
                Ratg { n: b2.d, d: b2.n }
            } else {
                Ratg { n: -b2.d, d: -b2.n }
            }),
            (b.n > 0) == (b2.n > 0),
            b.n != 0,
            b2.n != 0,
    {
    }
    lemma_rmul_congr(a, a2, ib, ib2);
    assert(rdiv(a, b) == rmul(a, ib) && rdiv(a2, b2) == rmul(a2, ib2)) by (nonlinear_arith)
        requires
            ib == (if b.n >= 0 {
                Ratg { n: b.d, d: b.n }
            } else {
                Ratg { n: -b.d, d: -b.n }
            }),
            ib2 == (if b2.n >= 0 {
                Ratg { n: b2.d, d: b2.n }
            } else {
                Ratg { n: -b2.d, d: -b2.n }
            }),
    {
    }
}

/// Negations of equal rationals are equal.
pub proof fn lemma_rneg_congr(a: Ratg, a2: Ratg)
    by (nonlinear_arith)
    requires
        rat_eqv(a, a2),
    ensures
        rat_eqv(rneg(a), rneg(a2)),
{
}

/// Order is a property of values: it transports across `rat_eqv`.
pub proof fn lemma_lev_congr(a: Ratg, a2: Ratg, b: Ratg, b2: Ratg)
    by (nonlinear_arith)
    requires
        rat_eqv(a, a2),
        rat_eqv(b, b2),
        1 <= a.d,
        1 <= a2.d,
        1 <= b.d,
        1 <= b2.d,
    ensures
        rat_lev(a, b) == rat_lev(a2, b2),
        rat_ltv(a, b) == rat_ltv(a2, b2),
        (a.n == 0) == (a2.n == 0),
        (a.n > 0) == (a2.n > 0),
{
}

/// One exec arithmetic step, at the level of values: the stored result of
/// `x op y` equals the exact operation on any rationals `px`, `py` equal in
/// value to `x` and `y`.
pub proof fn lemma_radd_step(x: Ratg, px: Ratg, y: Ratg, py: Ratg)
    requires
        rat_eqv(x, px),
        rat_eqv(y, py),
        1 <= x.d,
        1 <= y.d,
        1 <= px.d,
        1 <= py.d,
    ensures
        rat_eqv(norm_r(radd(x, y)), radd(px, py)),
        rat_eqv(radd(px, py), norm_r(radd(x, y))),
        1 <= norm_r(radd(x, y)).d,
        rat_wfg(radd(px, py)),
{
    lemma_radd_congr(x, px, y, py);
    lemma_norm(radd(x, y));
    lemma_eqv_trans(norm_r(radd(x, y)), radd(x, y), radd(px, py));
}

/// See `lemma_radd_step`.
pub proof fn lemma_rsub_step(x: Ratg, px: Ratg, y: Ratg, py: Ratg)
    requires
        rat_eqv(x, px),
        rat_eqv(y, py),
        1 <= x.d,
        1 <= y.d,
        1 <= px.d,
        1 <= py.d,
    ensures
        rat_eqv(norm_r(rsub(x, y)), rsub(px, py)),
        rat_eqv(rsub(px, py), norm_r(rsub(x, y))),
        1 <= norm_r(rsub(x, y)).d,
        rat_wfg(rsub(px, py)),
{
    lemma_rsub_congr(x, px, y, py);
    lemma_norm(rsub(x, y));
    lemma_eqv_trans(norm_r(rsub(x, y)), rsub(x, y), rsub(px, py));
}

/// See `lemma_radd_step`.
pub proof fn lemma_rmul_step(x: Ratg, px: Ratg, y: Ratg, py: Ratg)
    requires
        rat_eqv(x, px),
        rat_eqv(y, py),
        1 <= x.d,
        1 <= y.d,
        1 <= px.d,
        1 <= py.d,
    ensures
        rat_eqv(norm_r(rmul(x, y)), rmul(px, py)),
        rat_eqv(rmul(px, py), norm_r(rmul(x, y))),
        1 <= norm_r(rmul(x, y)).d,
        rat_wfg(rmul(px, py)),
{
    lemma_rmul_congr(x, px, y, py);
    lemma_norm(rmul(x, y));
    lemma_eqv_trans(norm_r(rmul(x, y)), rmul(x, y), rmul(px, py));
}

/// See `lemma_radd_step`.
pub proof fn lemma_rdiv_step(x: Ratg, px: Ratg, y: Ratg, py: Ratg)
    requires
        rat_eqv(x, px),
        rat_eqv(y, py),
        1 <= x.d,
        1 <= y.d,
        1 <= px.d,
        1 <= py.d,
        y.n != 0,
    ensures
        py.n != 0,
        rat_eqv(norm_r(rdiv(x, y)), rdiv(px, py)),
        rat_eqv(rdiv(px, py), norm_r(rdiv(x, y))),
        1 <= norm_r(rdiv(x, y)).d,
        rat_wfg(rdiv(px, py)),
{
    lemma_rdiv_congr(x, px, y, py);
    lemma_norm(rdiv(x, y));
    lemma_eqv_trans(norm_r(rdiv(x, y)), rdiv(x, y), rdiv(px, py));
}

/// An exact rational scalar: `num / den`, reduced, with `den >= 1`.
#[derive(Clone, Copy, Debug)]
pub struct Rat {
    num: i64,
    den: i64,
}

impl View for Rat {
    type V = Ratg;

    closed spec fn view(&self) -> Ratg {
        Ratg { n: self.num as int, d: self.den as int }
    }
}

impl Rat {
    /// Every `Rat` value holds a bounded, well-formed model (enforced as a
    /// type invariant; recover it with `use_type_invariant`).
    #[verifier::type_invariant]
    pub open spec fn inv(self) -> bool {
        rat_bndg(self@)
    }

    /// The numerator of the stored (reduced) fraction.
    pub fn num(&self) -> (r: i64)
        ensures
            r as int == self@.n,
    {
        self.num
    }

    /// The denominator of the stored (reduced) fraction.
    pub fn den(&self) -> (r: i64)
        ensures
            r as int == self@.d,
    {
        self.den
    }

    /// The rational `num / den`, reduced to lowest terms.
    pub fn new(num: i64, den: i64) -> (r: Rat)
        requires
            -(RAT_BOUND as int) <= num as int <= RAT_BOUND as int,
            1 <= den as int <= RAT_BOUND as int,
        ensures
            r@ == norm_r(Ratg { n: num as int, d: den as int }),
            rat_eqv(r@, Ratg { n: num as int, d: den as int }),
    {
        proof {
            lemma_fits_from_bnd(Ratg { n: num as int, d: den as int });
            lemma_norm(Ratg { n: num as int, d: den as int });
        }
        rat_norm128(num as i128, den as i128)
    }

    /// The rational `num / den`, stored exactly as given (not reduced); used
    /// for small constants whose representation the contracts name literally.
    pub fn exact(num: i64, den: i64) -> (r: Rat)
        requires
            -(RAT_BOUND as int) <= num as int <= RAT_BOUND as int,
            1 <= den as int <= RAT_BOUND as int,
        ensures
            r@ == (Ratg { n: num as int, d: den as int }),
    {
        Rat { num, den }
    }

    /// The integer `v` as a rational.
    pub fn from_int(v: i64) -> (r: Rat)
        requires
            -(RAT_BOUND as int) <= v as int <= RAT_BOUND as int,
        ensures
            r@ == rint(v as int),
    {
        Rat { num: v, den: 1 }
    }

    /// The rational zero.
    pub fn zero() -> (r: Rat)
        ensures
            r@ == rint(0),
    {
        Rat { num: 0, den: 1 }
    }

    /// The rational one.
    pub fn one() -> (r: Rat)
        ensures
            r@ == rint(1),
    {
        Rat { num: 1, den: 1 }
    }

    /// Exact sum.  The result is the reduced form of the model-level sum.
    pub fn add(self, other: Rat) -> (r: Rat)
        requires
            rat_fits(radd(self@, other@)),
        ensures
            r@ == norm_r(radd(self@, other@)),
            rat_eqv(r@, radd(self@, other@)),
            rat_eqv(radd(self@, other@), r@),
            rat_wfg(radd(self@, other@)),
    {
        proof {
            use_type_invariant(self);
            use_type_invariant(other);
            lemma_rat_i128_ops(self@, other@);
            lemma_norm(radd(self@, other@));
        }
        let n: i128 = (self.num as i128) * (other.den as i128) + (other.num as i128) * (self.den
            as i128);
        let d: i128 = (self.den as i128) * (other.den as i128);
        rat_norm128(n, d)
    }

    /// Exact difference.  The result is the reduced form of the model-level difference.
    pub fn sub(self, other: Rat) -> (r: Rat)
        requires
            rat_fits(rsub(self@, other@)),
        ensures
            r@ == norm_r(rsub(self@, other@)),
            rat_eqv(r@, rsub(self@, other@)),
            rat_eqv(rsub(self@, other@), r@),
            rat_wfg(rsub(self@, other@)),
    {
        proof {
            use_type_invariant(self);
            use_type_invariant(other);
            lemma_rat_i128_ops(self@, other@);
            lemma_norm(rsub(self@, other@));
        }
        let n: i128 = (self.num as i128) * (other.den as i128) - (other.num as i128) * (self.den
            as i128);
        let d: i128 = (self.den as i128) * (other.den as i128);
        rat_norm128(n, d)
    }

    /// Exact product.  The result is the reduced form of the model-level product.
    pub fn mul(self, other: Rat) -> (r: Rat)
        requires
            rat_fits(rmul(self@, other@)),
        ensures
            r@ == norm_r(rmul(self@, other@)),
            rat_eqv(r@, rmul(self@, other@)),
            rat_eqv(rmul(self@, other@), r@),
            rat_wfg(rmul(self@, other@)),
    {
        proof {
            use_type_invariant(self);
            use_type_invariant(other);
            lemma_rat_i128_ops(self@, other@);
            lemma_norm(rmul(self@, other@));
        }
        let n: i128 = (self.num as i128) * (other.num as i128);
        let d: i128 = (self.den as i128) * (other.den as i128);
        rat_norm128(n, d)
    }

    /// Exact quotient.  The divisor must be nonzero; the result is the reduced
    /// form of the model-level quotient.
    pub fn div(self, other: Rat) -> (r: Rat)
        requires
            other@.n != 0,
            rat_fits(rdiv(self@, other@)),
        ensures
            r@ == norm_r(rdiv(self@, other@)),
            rat_eqv(r@, rdiv(self@, other@)),
            rat_eqv(rdiv(self@, other@), r@),
            rat_wfg(rdiv(self@, other@)),
    {
        proof {
            use_type_invariant(self);
            use_type_invariant(other);
            lemma_rat_i128_ops(self@, other@);
            lemma_norm(rdiv(self@, other@));
        }
        let n0: i128 = (self.num as i128) * (other.den as i128);
        let d0: i128 = (self.den as i128) * (other.num as i128);
        if other.num >= 0 {
            rat_norm128(n0, d0)
        } else {
            proof {
                assert(-(d0 as int) == self@.d * -other@.n) by (nonlinear_arith)
                    requires
                        d0 as int == self@.d * other@.n,
                {
                }
            }
            rat_norm128(-n0, -d0)
        }
    }

    /// Exact negation.
    pub fn neg(self) -> (r: Rat)
        ensures
            r@ == rneg(self@),
    {
        proof {
            use_type_invariant(self);
        }
        Rat { num: -self.num, den: self.den }
    }

    /// Exact comparison: strictly less.
    pub fn lt(self, other: Rat) -> (r: bool)
        ensures
            r == rat_ltv(self@, other@),
    {
        proof {
            use_type_invariant(self);
            use_type_invariant(other);
            lemma_rat_i128_ops(self@, other@);
        }
        (self.num as i128) * (other.den as i128) < (other.num as i128) * (self.den as i128)
    }

    /// Exact comparison: less or equal.
    pub fn le(self, other: Rat) -> (r: bool)
        ensures
            r == rat_lev(self@, other@),
    {
        proof {
            use_type_invariant(self);
            use_type_invariant(other);
            lemma_rat_i128_ops(self@, other@);
        }
        (self.num as i128) * (other.den as i128) <= (other.num as i128) * (self.den as i128)
    }

    /// Whether the value is strictly positive.
    pub fn is_pos(self) -> (r: bool)
        ensures
            r == (self@.n > 0),
    {
        proof {
            use_type_invariant(self);
        }
        self.num > 0
    }

    /// Whether the value is zero.
    pub fn is_zero(self) -> (r: bool)
        ensures
            r == (self@.n == 0),
    {
        proof {
            use_type_invariant(self);
        }
        self.num == 0
    }
}

impl PartialEq for Rat {
    /// Value equality: cross multiplication of the stored fractions.
    fn eq(&self, other: &Rat) -> (r: bool) {
        proof {
            use_type_invariant(*self);
            use_type_invariant(*other);
            lemma_rat_i128_ops(self@, other@);
        }
        (self.num as i128) * (other.den as i128) == (other.num as i128) * (self.den as i128)
    }
}

impl vstd::std_specs::cmp::PartialEqSpecImpl for Rat {
    open spec fn obeys_eq_spec() -> bool {
        true
    }

    open spec fn eq_spec(&self, other: &Rat) -> bool {
        rat_eqv(self@, other@)
    }
}

/// Products of bounded stored components stay well inside `i128`.
proof fn lemma_rat_i128_ops(a: Ratg, b: Ratg) by (nonlinear_arith)
    requires
        rat_bndg(a),
        rat_bndg(b),
    ensures
        -(0x4000_0000_0000_0000_0000_0000_0000_0000 as int) < a.n * b.d + b.n * a.d
            < 0x4000_0000_0000_0000_0000_0000_0000_0000 as int,
        -(0x4000_0000_0000_0000_0000_0000_0000_0000 as int) < a.n * b.d - b.n * a.d
            < 0x4000_0000_0000_0000_0000_0000_0000_0000 as int,
        -(0x4000_0000_0000_0000_0000_0000_0000_0000 as int) < a.n * b.n
            < 0x4000_0000_0000_0000_0000_0000_0000_0000 as int,
        1 <= a.d * b.d < 0x4000_0000_0000_0000_0000_0000_0000_0000 as int,
        -(0x4000_0000_0000_0000_0000_0000_0000_0000 as int) < a.n * b.d
            < 0x4000_0000_0000_0000_0000_0000_0000_0000 as int,
        -(0x4000_0000_0000_0000_0000_0000_0000_0000 as int) < a.d * b.n
            < 0x4000_0000_0000_0000_0000_0000_0000_0000 as int,
        rat_wfg(radd(a, b)),
        rat_wfg(rsub(a, b)),
        rat_wfg(rmul(a, b)),
        b.n != 0 ==> rat_wfg(rdiv(a, b)),
{
}

/// Euclid's algorithm on machine integers; returns exactly `gcd_s`.
fn gcd_u128(a0: u128, b0: u128) -> (g: u128)
    requires
        1 <= b0,
    ensures
        g as nat == gcd_s(a0 as nat, b0 as nat),
        1 <= g,
{
    let mut a: u128 = a0;
    let mut b: u128 = b0;
    while b != 0
        invariant
            gcd_s(a as nat, b as nat) == gcd_s(a0 as nat, b0 as nat),
            a >= 1 || b >= 1,
        decreases b,
    {
        let t: u128 = a % b;
        a = b;
        b = t;
    }
    a
}

/// Builds the reduced `Rat` for the fraction `n / d` (used by all arithmetic).
fn rat_norm128(n: i128, d: i128) -> (r: Rat)
    requires
        1 <= d,
        -(0x4000_0000_0000_0000_0000_0000_0000_0000 as int) < n,
        rat_fits(Ratg { n: n as int, d: d as int }),
    ensures
        r@ == norm_r(Ratg { n: n as int, d: d as int }),
{
    let p = Ghost(Ratg { n: n as int, d: d as int });
    let neg = n < 0;
    let an: u128 = if neg {
        (-n) as u128
    } else {
        n as u128
    };
    let g: u128 = gcd_u128(an, d as u128);
    proof {
        lemma_gcd_divides(an as nat, d as nat);
        lemma_norm(p@);
    }
    let qn: u128 = an / g;
    let qd: u128 = (d as u128) / g;
    proof {
        let gi = g as int;
        lemma_exact_div(d as int, gi);
        lemma_exact_div(an as int, gi);
        if neg {
            let m = an as int / gi;
            assert(n as int == gi * -m) by (nonlinear_arith)
                requires
                    -(n as int) == gi * m,
            {
            }
            lemma_div_of_multiple(-m, gi);
            assert(n as int / gi == -m);
        }
        assert(norm_r(p@) == Ratg { n: if neg { -(qn as int) } else { qn as int }, d: qd as int });
    }
    let num: i64 = if neg {
        -(qn as i64)
    } else {
        qn as i64
    };
    Rat { num, den: qd as i64 }
}

/// Whether the reduced form of `n / d` fits the stored bounds (the
/// executable mirror of `rat_fits`).
fn fits128(n: i128, d: i128) -> (r: bool)
    requires
        1 <= d,
        -(0x4000_0000_0000_0000_0000_0000_0000_0000 as int) < n,
    ensures
        r == rat_fits(Ratg { n: n as int, d: d as int }),
{
    let p = Ghost(Ratg { n: n as int, d: d as int });
    let neg = n < 0;
    let an: u128 = if neg {
        (-n) as u128
    } else {
        n as u128
    };
    let g: u128 = gcd_u128(an, d as u128);
    proof {
        lemma_gcd_divides(an as nat, d as nat);
        lemma_norm(p@);
    }
    let qn: u128 = an / g;
    let qd: u128 = (d as u128) / g;
    proof {
        let gi = g as int;
        lemma_exact_div(d as int, gi);
        lemma_exact_div(an as int, gi);
        if neg {
            let m = an as int / gi;
            assert(n as int == gi * -m) by (nonlinear_arith)
                requires
                    -(n as int) == gi * m,
            {
            }
            lemma_div_of_multiple(-m, gi);
            assert(n as int / gi == -m);
        }
        assert(norm_r(p@) == Ratg { n: if neg { -(qn as int) } else { qn as int }, d: qd as int });
    }
    qn <= RAT_BOUND as u128 && qd <= RAT_BOUND as u128
}

impl Rat {
    /// Whether the exact sum of the two values fits back in a `Rat` (the
    /// condition `add` requires).
    pub fn add_fits(self, other: Rat) -> (r: bool)
        ensures
            r == rat_fits(radd(self@, other@)),
    {
        proof {
            use_type_invariant(self);
            use_type_invariant(other);
            lemma_rat_i128_ops(self@, other@);
        }
        let n: i128 = (self.num as i128) * (other.den as i128) + (other.num as i128) * (self.den
            as i128);
        let d: i128 = (self.den as i128) * (other.den as i128);
        fits128(n, d)
    }

    /// Whether the exact difference fits back in a `Rat`.
    pub fn sub_fits(self, other: Rat) -> (r: bool)
        ensures
            r == rat_fits(rsub(self@, other@)),
    {
        proof {
            use_type_invariant(self);
            use_type_invariant(other);
            lemma_rat_i128_ops(self@, other@);
        }
        let n: i128 = (self.num as i128) * (other.den as i128) - (other.num as i128) * (self.den
            as i128);
        let d: i128 = (self.den as i128) * (other.den as i128);
        fits128(n, d)
    }

    /// Whether the exact product fits back in a `Rat`.
    pub fn mul_fits(self, other: Rat) -> (r: bool)
        ensures
            r == rat_fits(rmul(self@, other@)),
    {
        proof {
            use_type_invariant(self);
            use_type_invariant(other);
            lemma_rat_i128_ops(self@, other@);
        }
        let n: i128 = (self.num as i128) * (other.num as i128);
        let d: i128 = (self.den as i128) * (other.den as i128);
        fits128(n, d)
    }

    /// Whether the exact quotient is defined (nonzero divisor) and fits back
    /// in a `Rat`.
    pub fn div_fits(self, other: Rat) -> (r: bool)
        ensures
            r == (other@.n != 0 && rat_fits(rdiv(self@, other@))),
    {
        proof {
            use_type_invariant(self);
            use_type_invariant(other);
            lemma_rat_i128_ops(self@, other@);
        }
        if other.num == 0 {
            return false;
        }
        let n0: i128 = (self.num as i128) * (other.den as i128);
        let d0: i128 = (self.den as i128) * (other.num as i128);
        if other.num >= 0 {
            fits128(n0, d0)
        } else {
            proof {
                assert(-(d0 as int) == self@.d * -other@.n) by (nonlinear_arith)
                    requires
                        d0 as int == self@.d * other@.n,
                {
                }
            }
            fits128(-n0, -d0)
        }
    }
}

/// Denominators of exact sums, differences and products of well-formed
/// models stay positive.
pub proof fn lemma_ops_wf_all()
    ensures
        forall|p: Ratg, q: Ratg| 1 <= p.d && 1 <= q.d ==> 1 <= #[trigger] rmul(p, q).d,
        forall|p: Ratg, q: Ratg| 1 <= p.d && 1 <= q.d ==> 1 <= #[trigger] radd(p, q).d,
        forall|p: Ratg, q: Ratg| 1 <= p.d && 1 <= q.d ==> 1 <= #[trigger] rsub(p, q).d,
{
    assert forall|p: Ratg, q: Ratg| 1 <= p.d && 1 <= q.d implies 1 <= #[trigger] rmul(p, q).d by {
        assert(1 <= p.d * q.d) by (nonlinear_arith)
            requires
                1 <= p.d,
                1 <= q.d,
        {
        }
    }
    assert forall|p: Ratg, q: Ratg| 1 <= p.d && 1 <= q.d implies 1 <= #[trigger] radd(p, q).d by {
        assert(1 <= p.d * q.d) by (nonlinear_arith)
            requires
                1 <= p.d,
                1 <= q.d,
        {
        }
    }
    assert forall|p: Ratg, q: Ratg| 1 <= p.d && 1 <= q.d implies 1 <= #[trigger] rsub(p, q).d by {
        assert(1 <= p.d * q.d) by (nonlinear_arith)
            requires
                1 <= p.d,
                1 <= q.d,
        {
        }
    }
}

/// Dividing a rational by a nonzero one gives zero exactly when the dividend
/// is zero, even after reduction.
pub proof fn lemma_rdiv_zero_iff(x: Ratg, m: Ratg)
    requires
        1 <= x.d,
        1 <= m.d,
        m.n != 0,
    ensures
        (norm_r(rdiv(x, m)).n == 0) == (x.n == 0),
        1 <= norm_r(rdiv(x, m)).d,
{
    assert(rat_wfg(rdiv(x, m)) && ((rdiv(x, m).n == 0) == (x.n == 0))) by (nonlinear_arith)
        requires
            1 <= x.d,
            1 <= m.d,
            m.n != 0,
    {
    }
    lemma_norm(rdiv(x, m));
    let q = norm_r(rdiv(x, m));
    let k = choose|k: int| scale_wit(q, rdiv(x, m), k);
    assert((q.n == 0) == (rdiv(x, m).n == 0)) by (nonlinear_arith)
        requires
            rdiv(x, m).n == q.n * k,
            1 <= k,
    {
    }
}

/// Addition of rationals is commutative at the representation level.
pub proof fn lemma_radd_comm(a: Ratg, b: Ratg)
    ensures
        radd(a, b) == radd(b, a),
{
    assert(a.d * b.d == b.d * a.d) by (nonlinear_arith);
}

/// Addition of rationals is associative in value.
pub proof fn lemma_radd_assoc(a: Ratg, b: Ratg, c: Ratg)
    requires
        1 <= a.d,
        1 <= b.d,
        1 <= c.d,
    ensures
        rat_eqv(radd(radd(a, b), c), radd(a, radd(b, c))),
        rat_wfg(radd(radd(a, b), c)),
        rat_wfg(radd(a, radd(b, c))),
{
    broadcast use vstd::arithmetic::mul::group_mul_properties;

    assert(radd(radd(a, b), c).n == a.n * (b.d * c.d) + b.n * (a.d * c.d) + c.n * (a.d * b.d));
    assert(radd(a, radd(b, c)).n == a.n * (b.d * c.d) + b.n * (a.d * c.d) + c.n * (a.d * b.d));
    assert(radd(radd(a, b), c).d == radd(a, radd(b, c)).d);
    assert(1 <= a.d * b.d && 1 <= b.d * c.d && 1 <= (a.d * b.d) * c.d) by (nonlinear_arith)
        requires
            1 <= a.d && 1 <= b.d && 1 <= c.d,
    {
    }
}

/// Products of rationals commute at the representation level.
pub proof fn lemma_rmul_comm(a: Ratg, b: Ratg)
    ensures
        rmul(a, b) == rmul(b, a),
{
    assert(a.n * b.n == b.n * a.n) by (nonlinear_arith);
    assert(a.d * b.d == b.d * a.d) by (nonlinear_arith);
}

/// Products of rationals associate at the representation level.
pub proof fn lemma_rmul_assoc(a: Ratg, b: Ratg, c: Ratg)
    ensures
        rmul(rmul(a, b), c) == rmul(a, rmul(b, c)),
{
    assert((a.n * b.n) * c.n == a.n * (b.n * c.n)) by (nonlinear_arith);
    assert((a.d * b.d) * c.d == a.d * (b.d * c.d)) by (nonlinear_arith);
}

/// A difference is the sum with the negated subtrahend, representation and
/// all.
pub proof fn lemma_rsub_as_radd_neg(a: Ratg, b: Ratg)
    ensures
        rsub(a, b) == radd(a, rneg(b)),
{
    assert((-b.n) * a.d == -(b.n * a.d)) by (nonlinear_arith);
}

/// Negation distributes over a sum, representation and all.
pub proof fn lemma_rneg_radd(a: Ratg, b: Ratg)
    ensures
        rneg(radd(a, b)) == radd(rneg(a), rneg(b)),
{
    assert((-a.n) * b.d == -(a.n * b.d)) by (nonlinear_arith);
    assert((-b.n) * a.d == -(b.n * a.d)) by (nonlinear_arith);
}

/// Multiplication distributes over a difference, in value (factor on the
/// left).
pub proof fn lemma_rdistrib_sub_left(a: Ratg, x: Ratg, y: Ratg)
    requires
        1 <= a.d,
        1 <= x.d,
        1 <= y.d,
    ensures
        rat_eqv(rmul(a, rsub(x, y)), rsub(rmul(a, x), rmul(a, y))),
        rat_eqv(rsub(rmul(a, x), rmul(a, y)), rmul(a, rsub(x, y))),
        rat_wfg(rmul(a, rsub(x, y))),
        rat_wfg(rsub(rmul(a, x), rmul(a, y))),
{
    broadcast use vstd::arithmetic::mul::group_mul_properties;

    let l = rmul(a, rsub(x, y));
    let r = rsub(rmul(a, x), rmul(a, y));
    assert(1 <= x.d * y.d && 1 <= a.d * x.d && 1 <= a.d * y.d && 1 <= a.d * (x.d * y.d) && 1 <= (
    a.d * x.d) * (a.d * y.d)) by (nonlinear_arith)
        requires
            1 <= a.d && 1 <= x.d && 1 <= y.d,
    {
    }
    assert(l.n * r.d == (a.n * (x.n * y.d - y.n * x.d)) * ((a.d * x.d) * (a.d * y.d)));
    assert(r.n * l.d == ((a.n * x.n) * (a.d * y.d) - (a.n * y.n) * (a.d * x.d)) * (a.d * (x.d
        * y.d)));
    assert((a.n * (x.n * y.d - y.n * x.d)) * ((a.d * x.d) * (a.d * y.d)) == ((a.n * x.n) * (a.d
        * y.d) - (a.n * y.n) * (a.d * x.d)) * (a.d * (x.d * y.d)));
}

/// The order on values is transitive (denominators positive).
pub proof fn lemma_lev_trans(a: Ratg, b: Ratg, c: Ratg)
    requires
        rat_lev(a, b),
        rat_lev(b, c),
        1 <= a.d,
        1 <= b.d,
        1 <= c.d,
    ensures
        rat_lev(a, c),
{
    assert(a.n * c.d <= c.n * a.d) by (nonlinear_arith)
        requires
            a.n * b.d <= b.n * a.d,
            b.n * c.d <= c.n * b.d,
            1 <= a.d,
            1 <= b.d,
            1 <= c.d,
    {
    }
}

/// Adding the same rational to both sides keeps the order.
pub proof fn lemma_lev_add_mono(a: Ratg, b: Ratg, c: Ratg)
    requires
        rat_lev(a, b),
        1 <= a.d,
        1 <= b.d,
        1 <= c.d,
    ensures
        rat_lev(radd(a, c), radd(b, c)),
        rat_wfg(radd(a, c)),
        rat_wfg(radd(b, c)),
{
    broadcast use vstd::arithmetic::mul::group_mul_properties;

    assert(1 <= a.d * c.d && 1 <= b.d * c.d) by (nonlinear_arith)
        requires
            1 <= a.d && 1 <= b.d && 1 <= c.d,
    {
    }
    assert(radd(a, c).n * radd(b, c).d == (a.n * b.d) * (c.d * c.d) + (c.n * c.d) * (a.d * b.d));
    assert(radd(b, c).n * radd(a, c).d == (b.n * a.d) * (c.d * c.d) + (c.n * c.d) * (a.d * b.d));
    assert((a.n * b.d) * (c.d * c.d) <= (b.n * a.d) * (c.d * c.d)) by (nonlinear_arith)
        requires
            a.n * b.d <= b.n * a.d,
            1 <= c.d,
    {
    }
}

/// Multiplying both sides by the same nonnegative rational keeps the order.
pub proof fn lemma_lev_mul_mono(a: Ratg, b: Ratg, c: Ratg)
    requires
        rat_lev(a, b),
        1 <= a.d,
        1 <= b.d,
        1 <= c.d,
        0 <= c.n,
    ensures
        rat_lev(rmul(a, c), rmul(b, c)),
        rat_wfg(rmul(a, c)),
        rat_wfg(rmul(b, c)),
{
    broadcast use vstd::arithmetic::mul::group_mul_properties;

    assert(1 <= a.d * c.d && 1 <= b.d * c.d) by (nonlinear_arith)
        requires
            1 <= a.d && 1 <= b.d && 1 <= c.d,
    {
    }
    assert(rmul(a, c).n * rmul(b, c).d == (a.n * b.d) * (c.n * c.d));
    assert(rmul(b, c).n * rmul(a, c).d == (b.n * a.d) * (c.n * c.d));
    assert((a.n * b.d) * (c.n * c.d) <= (b.n * a.d) * (c.n * c.d)) by (nonlinear_arith)
        requires
            a.n * b.d <= b.n * a.d,
            0 <= c.n,
            1 <= c.d,
    {
    }
}

/// Multiplication distributes over addition, in value.
pub proof fn lemma_rdistrib(a: Ratg, b: Ratg, c: Ratg)
    requires
        1 <= a.d,
        1 <= b.d,
        1 <= c.d,
    ensures
        rat_eqv(radd(rmul(a, c), rmul(b, c)), rmul(radd(a, b), c)),
        rat_eqv(rmul(radd(a, b), c), radd(rmul(a, c), rmul(b, c))),
        rat_wfg(radd(rmul(a, c), rmul(b, c))),
        rat_wfg(rmul(radd(a, b), c)),
{
    broadcast use vstd::arithmetic::mul::group_mul_properties;

    let l = radd(rmul(a, c), rmul(b, c));
    let r = rmul(radd(a, b), c);
    assert(1 <= a.d * b.d && 1 <= a.d * c.d && 1 <= b.d * c.d && 1 <= (a.d * c.d) * (b.d * c.d)
        && 1 <= (a.d * b.d) * c.d) by (nonlinear_arith)
        requires
            1 <= a.d && 1 <= b.d && 1 <= c.d,
    {
    }
    assert(l.n * r.d == ((a.n * c.n) * (b.d * c.d) + (b.n * c.n) * (a.d * c.d)) * ((a.d * b.d)
        * c.d));
    assert(r.n * l.d == ((a.n * b.d + b.n * a.d) * c.n) * ((a.d * c.d) * (b.d * c.d)));
    assert(((a.n * c.n) * (b.d * c.d) + (b.n * c.n) * (a.d * c.d)) * ((a.d * b.d) * c.d) == ((a.n
        * b.d + b.n * a.d) * c.n) * ((a.d * c.d) * (b.d * c.d)));
}

/// The representation stored by the combination `((a + b) + c) - d`.
pub open spec fn ppms_rep(a: Ratg, b: Ratg, c: Ratg, d: Ratg) -> Ratg {
    norm_r(rsub(norm_r(radd(norm_r(radd(a, b)), c)), d))
}

/// Every intermediate of `((a + b) + c) - d` fits in a `Rat`.
pub open spec fn ppms_fits(a: Ratg, b: Ratg, c: Ratg, d: Ratg) -> bool {
    &&& rat_fits(radd(a, b))
    &&& rat_fits(radd(norm_r(radd(a, b)), c))
    &&& rat_fits(rsub(norm_r(radd(norm_r(radd(a, b)), c)), d))
}

/// The representation stored by the combination `((a - b) - c) - d`.
pub open spec fn mmms_rep(a: Ratg, b: Ratg, c: Ratg, d: Ratg) -> Ratg {
    norm_r(rsub(norm_r(rsub(norm_r(rsub(a, b)), c)), d))
}

/// Every intermediate of `((a - b) - c) - d` fits in a `Rat`.
pub open spec fn mmms_fits(a: Ratg, b: Ratg, c: Ratg, d: Ratg) -> bool {
    &&& rat_fits(rsub(a, b))
    &&& rat_fits(rsub(norm_r(rsub(a, b)), c))
    &&& rat_fits(rsub(norm_r(rsub(norm_r(rsub(a, b)), c)), d))
}

impl Rat {
    /// The combination `((a + b) + c) - d` (one quaternion-product component).
    pub fn comb_ppms(a: Rat, b: Rat, c: Rat, d: Rat) -> (r: Rat)
        requires
            ppms_fits(a@, b@, c@, d@),
        ensures
            r@ == ppms_rep(a@, b@, c@, d@),
            rat_eqv(r@, rsub(radd(radd(a@, b@), c@), d@)),
            rat_wfg(rsub(radd(radd(a@, b@), c@), d@)),
    {
        proof {
            use_type_invariant(a);
            use_type_invariant(b);
            use_type_invariant(c);
            use_type_invariant(d);
            lemma_ops_wf_all();
        }
        let s1 = a.add(b);
        let s2 = s1.add(c);
        let r = s2.sub(d);
        proof {
            lemma_radd_congr(s1@, radd(a@, b@), c@, c@);
            lemma_eqv_trans(s2@, radd(s1@, c@), radd(radd(a@, b@), c@));
            lemma_rsub_congr(s2@, radd(radd(a@, b@), c@), d@, d@);
            lemma_eqv_trans(r@, rsub(s2@, d@), rsub(radd(radd(a@, b@), c@), d@));
        }
        r
    }

    /// The combination `((a - b) - c) - d` (the scalar quaternion-product
    /// component).
    pub fn comb_mmms(a: Rat, b: Rat, c: Rat, d: Rat) -> (r: Rat)
        requires
            mmms_fits(a@, b@, c@, d@),
        ensures
            r@ == mmms_rep(a@, b@, c@, d@),
            rat_eqv(r@, rsub(rsub(rsub(a@, b@), c@), d@)),
            rat_wfg(rsub(rsub(rsub(a@, b@), c@), d@)),
    {
        proof {
            use_type_invariant(a);
            use_type_invariant(b);
            use_type_invariant(c);
            use_type_invariant(d);
            lemma_ops_wf_all();
        }
        let s1 = a.sub(b);
        let s2 = s1.sub(c);
        let r = s2.sub(d);
        proof {
            lemma_rsub_congr(s1@, rsub(a@, b@), c@, c@);
            lemma_eqv_trans(s2@, rsub(s1@, c@), rsub(rsub(a@, b@), c@));
            lemma_rsub_congr(s2@, rsub(rsub(a@, b@), c@), d@, d@);
            lemma_eqv_trans(r@, rsub(s2@, d@), rsub(rsub(rsub(a@, b@), c@), d@));
        }
        r
    }
}

/// Denominator of square-root results: they are multiples of `1 / SQRT_DEN`.
pub const SQRT_DEN: i64 = 65536;

/// `r` is the integer square root of `x`.
pub open spec fn is_isqrt(x: int, r: int) -> bool {
    0 <= r && r * r <= x && x < (r + 1) * (r + 1)
}

/// The integer square root of `x`.
pub open spec fn isqrt_s(x: int) -> int {
    choose|r: int| is_isqrt(x, r)
}

/// The step `1 / SQRT_DEN` as a rational model.
pub open spec fn sd_unit() -> Ratg {
    Ratg { n: 1, d: SQRT_DEN as int }
}

/// The representation a square root computation stores for input
/// representation `a`: the largest multiple of `1 / SQRT_DEN` whose square is
/// at most the value of `a`, reduced to lowest terms.
pub open spec fn sqrt_rep(a: Ratg) -> Ratg {
    norm_r(
        Ratg {
            n: isqrt_s((a.n * (SQRT_DEN as int) * (SQRT_DEN as int)) / a.d),
            d: SQRT_DEN as int,
        },
    )
}

/// `r` approximates the square root of `a` from below:
/// `r^2 <= a < (r + 1/SQRT_DEN)^2`.
pub open spec fn sqrt_rel(a: Ratg, r: Ratg) -> bool {
    &&& 0 <= r.n
    &&& 1 <= r.d
    &&& rat_lev(rmul(r, r), a)
    &&& rat_ltv(a, rmul(radd(r, sd_unit()), radd(r, sd_unit())))
}

/// Any two integer square roots of `x` agree, so `isqrt_s` returns the witness.
pub proof fn lemma_isqrt_agree(x: int, r: int)
    requires
        is_isqrt(x, r),
    ensures
        isqrt_s(x) == r,
{
    assert(is_isqrt(x, isqrt_s(x))) by {
        assert(is_isqrt(x, r));
    }
    let r2 = isqrt_s(x);
    assert(r == r2) by (nonlinear_arith)
        requires
            is_isqrt(x, r),
            is_isqrt(x, r2),
    {
    }
}

/// The square-root relation is a relation between values: it transports
/// across `rat_eqv` in both arguments.
pub proof fn lemma_sqrt_rel_congr(a: Ratg, a2: Ratg, r: Ratg, r2: Ratg)
    requires
        sqrt_rel(a, r),
        rat_eqv(a, a2),
        rat_eqv(r, r2),
        1 <= a.d,
        1 <= a2.d,
        1 <= r2.d,
    ensures
        sqrt_rel(a2, r2),
{
    lemma_lev_congr(r, r2, r, r2);
    lemma_rmul_congr(r, r2, r, r2);
    lemma_radd_congr(r, r2, sd_unit(), sd_unit());
    lemma_rmul_congr(radd(r, sd_unit()), radd(r2, sd_unit()), radd(r, sd_unit()), radd(r2, sd_unit()));
    lemma_lev_congr(rmul(r, r), rmul(r2, r2), a, a2);
    lemma_lev_congr(
        a,
        a2,
        rmul(radd(r, sd_unit()), radd(r, sd_unit())),
        rmul(radd(r2, sd_unit()), radd(r2, sd_unit())),
    );
}

/// Integer square root by bisection.
fn isqrt_u128(x: u128) -> (r: u128)
    requires
        x as int <= 0x4000_0000_0000_0000_0000_0000 as int,
    ensures
        is_isqrt(x as int, r as int),
        r <= 0x2_0000_0000_0000,
{
    let mut lo: u128 = 0;
    let mut hi: u128 = 0x2_0000_0000_0000;
    assert((hi as int) * (hi as int) > x as int) by (nonlinear_arith)
        requires
            hi as int == 0x2_0000_0000_0000 as int,
            x as int <= 0x4000_0000_0000_0000_0000_0000 as int,
    {
    }
    while lo + 1 < hi
        invariant
            (lo as int) * (lo as int) <= x as int,
            (x as int) < (hi as int) * (hi as int),
            lo < hi,
            hi <= 0x2_0000_0000_0000,
        decreases hi - lo,
    {
        let mid: u128 = lo + (hi - lo) / 2;
        proof {
            assert((mid as int) * (mid as int) < 0x4_0000_0000_0000_0000_0000_0000_0000 as int)
                by (nonlinear_arith)
                requires
                    mid as int <= 0x2_0000_0000_0000 as int,
                    0 <= mid as int,
            {
            }
        }
        if mid * mid <= x {
            lo = mid;
        } else {
            hi = mid;
        }
    }
    assert(hi == lo + 1);
    lo
}

impl Rat {
    /// The square root of a nonnegative rational, rounded down to a multiple
    /// of `1 / SQRT_DEN`.
    pub fn sqrt_approx(self) -> (r: Rat)
        requires
            0 <= self@.n,
        ensures
            r@ == sqrt_rep(self@),
            sqrt_rel(self@, r@),
            0 <= r@.n,
    {
        proof {
            use_type_invariant(self);
        }
        let nk: i128 = (self.num as i128) * (SQRT_DEN as i128) * (SQRT_DEN as i128);
        let q: u128 = (nk as u128) / (self.den as u128);
        let m: u128 = isqrt_u128(q);
        let ghost a = self@;
        let ghost k = SQRT_DEN as int;
        let ghost qs = (a.n * k * k) / a.d;
        let ghost mk = Ratg { n: m as int, d: k };
        proof {
            assert(0 <= nk as int <= 0x4000_0000_0000_0000_0000_0000 as int) by (nonlinear_arith)
                requires
                    nk as int == a.n * k * k,
                    0 <= a.n <= 0x4000_0000_0000_0000 as int,
                    k == 65536,
            {
            }
            assert(q as int == qs);
            lemma_isqrt_agree(qs, m as int);
            lemma_fits_from_bnd(mk);
            lemma_norm(mk);
            // The value-level bounds follow from the integer-root bounds and
            // from division with remainder by the denominator.
            vstd::arithmetic::div_mod::lemma_fundamental_div_mod(a.n * k * k, a.d);
            vstd::arithmetic::div_mod::lemma_mod_division_less_than_divisor(a.n * k * k, a.d);
            let rem = (a.n * k * k) % a.d;
            assert(rat_lev(rmul(mk, mk), a) && rat_ltv(
                a,
                rmul(radd(mk, sd_unit()), radd(mk, sd_unit())),
            )) by (nonlinear_arith)
                requires
                    a.n * k * k == a.d * qs + rem,
                    0 <= rem < a.d,
                    1 <= a.d,
                    0 <= a.n,
                    k == 65536,
                    mk.n == m as int,
                    mk.d == k,
                    0 <= mk.n,
                    mk.n * mk.n <= qs,
                    qs < (mk.n + 1) * (mk.n + 1),
                    sd_unit() == (Ratg { n: 1, d: k }),
            {
            }
            lemma_sqrt_rel_congr(a, a, mk, norm_r(mk));
        }
        rat_norm128(m as i128, SQRT_DEN as i128)
    }
}

} // verus!
