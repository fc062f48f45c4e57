//! General laws of the kernel, stated over the ghost models and proved once
//! and for all: commutativity of the dot product, antisymmetry of the cross
//! product, the behavior of `normalize` on zero and unit vectors, and the
//! indifference of an immovable body at rest to the stepper.

use vstd::prelude::*;
use crate::rat::{
    Ratg, is_isqrt, lemma_eqv_trans, lemma_isqrt_agree, lemma_lev_add_mono, lemma_lev_congr,
    lemma_lev_mul_mono, lemma_lev_trans, lemma_norm, lemma_ops_wf_all, lemma_radd_assoc,
    lemma_radd_comm, lemma_radd_congr, lemma_rdistrib, lemma_rdistrib_sub_left, lemma_rmul_assoc,
    lemma_rmul_congr, lemma_rsub_as_radd_neg, lemma_rsub_congr, norm_r, radd, rat_eqv, rat_lev,
    rat_ltv, rat_wfg, rdiv, rint, rmul, rneg, rsub, scale_wit, sd_unit, SQRT_DEN,
};
use crate::mat3::{Mat3g, det3_v, m3_wf, transpose3_v};
use crate::vec3d::{
    Vec3g, dot3_v, mag3_rep, magsq3_rep, magsq3_v, normalize3_rep, v3_cross, v3_divs, v3_eqv,
    v3_neg, v3_scale, v3_wf, v3_zero,
};
use crate::quat::{Quatg, magsq4_v, q4_eqv, q4_ident, q4_nonzero, q4_wf, qinv_v, qmul_v};
use crate::body::Body;
use crate::scene::body_stepped;

verus! {

/// Swapping both products of a difference and negating gives the same
/// rational back: `p - q == -(q - p)` at the representation level.
proof fn lemma_rsub_swap(p: Ratg, q: Ratg)
    ensures
        rsub(p, q) == rneg(rsub(q, p)),
{
    assert(rsub(p, q).d == rsub(q, p).d) by (nonlinear_arith);
}

/// The dot product is commutative: `dot(a, b) == dot(b, a)`, exactly.
pub proof fn lemma_dot3_comm(a: Vec3g, b: Vec3g)
    ensures
        dot3_v(a, b) == dot3_v(b, a),
{
    assert(rmul(a.x, b.x) == rmul(b.x, a.x) && rmul(a.y, b.y) == rmul(b.y, a.y) && rmul(a.z, b.z)
        == rmul(b.z, a.z)) by (nonlinear_arith);
}

/// The cross product is antisymmetric: `cross(a, b) == -cross(b, a)`,
/// exactly.
pub proof fn lemma_cross3_antisym(a: Vec3g, b: Vec3g)
    ensures
        v3_cross(a, b) == v3_neg(v3_cross(b, a)),
{
    assert(rmul(a.y, b.z) == rmul(b.z, a.y) && rmul(a.z, b.y) == rmul(b.y, a.z) && rmul(a.z, b.x)
        == rmul(b.x, a.z) && rmul(a.x, b.z) == rmul(b.z, a.x) && rmul(a.x, b.y) == rmul(
        b.y,
        a.x,
    ) && rmul(a.y, b.x) == rmul(b.x, a.y)) by (nonlinear_arith);
    lemma_rsub_swap(rmul(a.y, b.z), rmul(a.z, b.y));
    lemma_rsub_swap(rmul(a.z, b.x), rmul(a.x, b.z));
    lemma_rsub_swap(rmul(a.x, b.y), rmul(a.y, b.x));
}

/// The cross product of a vector with itself is the zero vector.
pub proof fn lemma_cross3_self(a: Vec3g)
    requires
        v3_wf(a),
    ensures
        v3_eqv(v3_cross(a, a), v3_zero()),
{
    lemma_ops_wf_all();
    assert(rmul(a.y, a.z) == rmul(a.z, a.y) && rmul(a.z, a.x) == rmul(a.x, a.z) && rmul(a.x, a.y)
        == rmul(a.y, a.x)) by (nonlinear_arith);
    assert(v3_cross(a, a).x.n == 0);
    assert(v3_cross(a, a).y.n == 0);
    assert(v3_cross(a, a).z.n == 0);
}

/// Reduction keeps a zero numerator zero.
proof fn lemma_norm_zero(p: Ratg)
    requires
        1 <= p.d,
    ensures
        (norm_r(p).n == 0) == (p.n == 0),
        1 <= norm_r(p).d,
{
    lemma_norm(p);
    let q = norm_r(p);
    let k = choose|k: int| scale_wit(q, p, k);
    assert((q.n == 0) == (p.n == 0)) by (nonlinear_arith)
        requires
            p.n == q.n * k,
            1 <= k,
    {
    }
}

/// The stored squared magnitude denotes the exact squared magnitude.
pub proof fn lemma_magsq3_rep_eqv(v: Vec3g)
    requires
        v3_wf(v),
    ensures
        rat_eqv(magsq3_rep(v), magsq3_v(v)),
        1 <= magsq3_rep(v).d,
{
    lemma_ops_wf_all();
    let gx = rmul(v.x, v.x);
    let gy = rmul(v.y, v.y);
    let gz = rmul(v.z, v.z);
    lemma_norm(gx);
    lemma_norm(gy);
    lemma_norm(gz);
    lemma_radd_congr(norm_r(gx), gx, norm_r(gy), gy);
    lemma_norm(radd(norm_r(gx), norm_r(gy)));
    let s1 = norm_r(radd(norm_r(gx), norm_r(gy)));
    lemma_eqv_trans(s1, radd(norm_r(gx), norm_r(gy)), radd(gx, gy));
    lemma_radd_congr(s1, radd(gx, gy), norm_r(gz), gz);
    lemma_norm(radd(s1, norm_r(gz)));
    lemma_eqv_trans(norm_r(radd(s1, norm_r(gz))), radd(s1, norm_r(gz)), radd(radd(gx, gy), gz));
}

/// The zero vector normalizes to itself, unchanged (the degenerate-magnitude
/// branch of `normalize`).
pub proof fn lemma_normalize3_zero(v: Vec3g)
    requires
        v3_wf(v),
        v3_eqv(v, v3_zero()),
    ensures
        normalize3_rep(v) == v,
        mag3_rep(v).n == 0,
{
    lemma_ops_wf_all();
    crate::vec3d::lemma_magsq3_nonneg(v);
    lemma_magsq3_rep_eqv(v);
    let msq = magsq3_rep(v);
    // The stored squared magnitude has a zero numerator.
    lemma_lev_congr(msq, magsq3_v(v), msq, magsq3_v(v));
    assert(msq.n == 0);
    // Its square root therefore stores zero as well.
    let k = SQRT_DEN as int;
    assert((msq.n * k * k) / msq.d == 0) by {
        assert(msq.n * k * k == 0) by (nonlinear_arith)
            requires
                msq.n == 0,
        {
        }
        vstd::arithmetic::div_mod::lemma_div_of0(msq.d);
    }
    assert(is_isqrt(0, 0));
    lemma_isqrt_agree(0, 0);
    lemma_norm_zero(Ratg { n: 0, d: k });
    assert(mag3_rep(v).n == 0);
}

/// A vector whose squared magnitude is exactly one normalizes to itself in
/// value (so `normalize` is idempotent on exactly-unit vectors).
pub proof fn lemma_normalize3_of_unit(v: Vec3g)
    requires
        v3_wf(v),
        rat_eqv(magsq3_v(v), rint(1)),
    ensures
        v3_eqv(normalize3_rep(v), v),
        mag3_rep(v).n > 0,
        rat_eqv(mag3_rep(v), rint(1)),
{
    lemma_ops_wf_all();
    lemma_magsq3_rep_eqv(v);
    let msq = magsq3_rep(v);
    lemma_eqv_trans(msq, magsq3_v(v), rint(1));
    // msq.n == msq.d, both positive.
    assert(msq.n == msq.d);
    let k = SQRT_DEN as int;
    // (msq.n * k * k) / msq.d == k * k, exactly.
    assert(msq.n * k * k == msq.d * (k * k)) by (nonlinear_arith)
        requires
            msq.n == msq.d,
    {
    }
    crate::rat::lemma_div_of_multiple(k * k, msq.d);
    assert((msq.n * k * k) / msq.d == k * k);
    assert(is_isqrt(k * k, k)) by (nonlinear_arith)
        requires
            k == 65536,
    {
    }
    lemma_isqrt_agree(k * k, k);
    let m = mag3_rep(v);
    assert(m == norm_r(Ratg { n: k, d: k }));
    lemma_norm(Ratg { n: k, d: k });
    let kk = choose|kk: int| scale_wit(m, Ratg { n: k, d: k }, kk);
    assert(m.n == m.d && m.n > 0) by (nonlinear_arith)
        requires
            k == m.n * kk,
            k == m.d * kk,
            1 <= kk,
            1 <= m.d,
            k == 65536,
    {
    }
    // Dividing by a magnitude equal to one returns the same value.
    assert(rat_eqv(rdiv(v.x, m), v.x) && rat_eqv(rdiv(v.y, m), v.y) && rat_eqv(rdiv(v.z, m), v.z))
        by (nonlinear_arith)
        requires
            m.n == m.d,
            m.n > 0,
            1 <= v.x.d,
            1 <= v.y.d,
            1 <= v.z.d,
    {
    }
    assert(rat_wfg(rdiv(v.x, m)) && rat_wfg(rdiv(v.y, m)) && rat_wfg(rdiv(v.z, m)))
        by (nonlinear_arith)
        requires
            m.n > 0,
            1 <= v.x.d,
            1 <= v.y.d,
            1 <= v.z.d,
    {
    }
    lemma_norm(rdiv(v.x, m));
    lemma_norm(rdiv(v.y, m));
    lemma_norm(rdiv(v.z, m));
    lemma_eqv_trans(norm_r(rdiv(v.x, m)), rdiv(v.x, m), v.x);
    lemma_eqv_trans(norm_r(rdiv(v.y, m)), rdiv(v.y, m), v.y);
    lemma_eqv_trans(norm_r(rdiv(v.z, m)), rdiv(v.z, m), v.z);
}

/// The two cross products of a skew pair cancel: used for the vector part of
/// a quaternion times its inverse.
proof fn lemma_skew_cancel(x1: int, x2: int, k: int, d1: int, d2: int, e: int)
    ensures
        (x1 * (-(x2 * k))) * (d2 * (d1 * e)) + (x2 * (x1 * k)) * (d1 * (d2 * e)) == 0,
{
    assert(x1 * (-(x2 * k)) == -(x1 * (x2 * k))) by (nonlinear_arith);
    assert(x1 * (x2 * k) == x2 * (x1 * k)) by (nonlinear_arith);
    assert(d2 * (d1 * e) == d1 * (d2 * e)) by (nonlinear_arith);
    assert((-(x2 * (x1 * k))) * (d1 * (d2 * e)) == -((x2 * (x1 * k)) * (d1 * (d2 * e))))
        by (nonlinear_arith);
}

/// The two negated cross products of a skew pair are equal.
proof fn lemma_skew_equal(x1: int, x2: int, k: int, d1: int, d2: int, e: int)
    ensures
        (x1 * (-(x2 * k))) * (d2 * (d1 * e)) == (x2 * (-(x1 * k))) * (d1 * (d2 * e)),
{
    assert(x1 * (-(x2 * k)) == -(x1 * (x2 * k))) by (nonlinear_arith);
    assert(x2 * (-(x1 * k)) == -(x2 * (x1 * k))) by (nonlinear_arith);
    assert(x1 * (x2 * k) == x2 * (x1 * k)) by (nonlinear_arith);
    assert(d2 * (d1 * e) == d1 * (d2 * e)) by (nonlinear_arith);
    assert((-(x1 * (x2 * k))) * (d2 * (d1 * e)) == -((x1 * (x2 * k)) * (d2 * (d1 * e))))
        by (nonlinear_arith);
    assert((-(x2 * (x1 * k))) * (d1 * (d2 * e)) == -((x2 * (x1 * k)) * (d1 * (d2 * e))))
        by (nonlinear_arith);
}

/// One vector component of `q * q^(-1)` vanishes: the first two products
/// cancel pairwise and the last two cancel pairwise.
proof fn lemma_qmul_inv_vec_component(pa: Ratg, pb: Ratg, pc: Ratg, pd: Ratg)
    requires
        radd(pa, pb).n == 0,
        pc.n * pd.d == pd.n * pc.d,
        1 <= pa.d,
        1 <= pb.d,
        1 <= pc.d,
        1 <= pd.d,
    ensures
        rat_eqv(rsub(radd(radd(pa, pb), pc), pd), rint(0)),
{
    assert(1 <= ((pa.d * pb.d) * pc.d) * pd.d) by (nonlinear_arith)
        requires
            1 <= pa.d && 1 <= pb.d && 1 <= pc.d && 1 <= pd.d,
    {
    }
    let ab = radd(pa, pb);
    let abc = radd(ab, pc);
    assert(abc.n == pc.n * ab.d) by (nonlinear_arith)
        requires
            ab.n == 0,
            abc == radd(ab, pc),
    {
    }
    assert(rsub(abc, pd).n == 0) by (nonlinear_arith)
        requires
            abc.n == pc.n * ab.d,
            abc.d == ab.d * pc.d,
            pc.n * pd.d == pd.n * pc.d,
    {
    }
}

/// The components the inverse of a nonzero quaternion stores (over the exact
/// squared magnitude).
#[verifier::spinoff_prover]
proof fn lemma_qinv_shape(q: Quatg)
    requires
        q4_wf(q),
        q4_nonzero(q),
    ensures
        magsq4_v(q).n >= 1,
        rat_wfg(magsq4_v(q)),
        qinv_v(q).x == (Ratg { n: -(q.x.n * magsq4_v(q).d), d: q.x.d * magsq4_v(q).n }),
        qinv_v(q).y == (Ratg { n: -(q.y.n * magsq4_v(q).d), d: q.y.d * magsq4_v(q).n }),
        qinv_v(q).z == (Ratg { n: -(q.z.n * magsq4_v(q).d), d: q.z.d * magsq4_v(q).n }),
        qinv_v(q).w == (Ratg { n: q.w.n * magsq4_v(q).d, d: q.w.d * magsq4_v(q).n }),
        q4_wf(qinv_v(q)),
{
    crate::quat::lemma_magsq4_nonneg(q);
    let m = magsq4_v(q);
    assert(1 <= q.x.d * m.n && 1 <= q.y.d * m.n && 1 <= q.z.d * m.n && 1 <= q.w.d * m.n)
        by (nonlinear_arith)
        requires
            1 <= m.n && 1 <= q.x.d && 1 <= q.y.d && 1 <= q.z.d && 1 <= q.w.d,
    {
    }
}

/// The denominators of the sixteen products in a quaternion product with a
/// reciprocal-shaped quaternion are positive.
proof fn lemma_recip_prods_wf(p: Quatg, iv: Quatg, e: int)
    requires
        q4_wf(p),
        1 <= e,
        iv.x.d == p.x.d * e,
        iv.y.d == p.y.d * e,
        iv.z.d == p.z.d * e,
        iv.w.d == p.w.d * e,
    ensures
        q4_wf(iv),
{
    assert(1 <= p.x.d * e && 1 <= p.y.d * e && 1 <= p.z.d * e && 1 <= p.w.d * e)
        by (nonlinear_arith)
        requires
            1 <= e && 1 <= p.x.d && 1 <= p.y.d && 1 <= p.z.d && 1 <= p.w.d,
    {
    }
}

/// One vector component of a product with a reciprocal-shaped quaternion is
/// zero in value (the component that pairs `w` with `cx` and `cy` with `cz`).
#[verifier::spinoff_prover]
proof fn lemma_skew_component(
    w: Ratg,
    cx: Ratg,
    cy: Ratg,
    cz: Ratg,
    ix: Ratg,
    iw: Ratg,
    iz: Ratg,
    iy: Ratg,
    k: int,
    e: int,
)
    requires
        1 <= w.d && 1 <= cx.d && 1 <= cy.d && 1 <= cz.d,
        1 <= e,
        ix == (Ratg { n: -(cx.n * k), d: cx.d * e }),
        iy == (Ratg { n: -(cy.n * k), d: cy.d * e }),
        iz == (Ratg { n: -(cz.n * k), d: cz.d * e }),
        iw == (Ratg { n: w.n * k, d: w.d * e }),
    ensures
        rat_eqv(rsub(radd(radd(rmul(w, ix), rmul(cx, iw)), rmul(cy, iz)), rmul(cz, iy)), rint(0)),
{
    assert(1 <= rmul(w, ix).d && 1 <= rmul(cx, iw).d && 1 <= rmul(cy, iz).d && 1 <= rmul(
        cz,
        iy,
    ).d) by (nonlinear_arith)
        requires
            1 <= e && 1 <= w.d && 1 <= cx.d && 1 <= cy.d && 1 <= cz.d,
            ix.d == cx.d * e && iy.d == cy.d * e && iz.d == cz.d * e && iw.d == w.d * e,
    {
    }
    lemma_skew_cancel(w.n, cx.n, k, w.d, cx.d, e);
    lemma_skew_equal(cy.n, cz.n, k, cy.d, cz.d, e);
    lemma_qmul_inv_vec_component(rmul(w, ix), rmul(cx, iw), rmul(cy, iz), rmul(cz, iy));
}

/// A product with the inverse's component is a square scaled by the
/// reciprocal of the squared magnitude.
proof fn lemma_inv_square_shape(c: Ratg, k: int, e: int)
    ensures
        rmul(c, Ratg { n: c.n * k, d: c.d * e }) == rmul(rmul(c, c), Ratg { n: k, d: e }),
        rmul(c, Ratg { n: -(c.n * k), d: c.d * e }).n == -(rmul(rmul(c, c), Ratg { n: k, d: e }).n),
        rmul(c, Ratg { n: -(c.n * k), d: c.d * e }).d == rmul(rmul(c, c), Ratg { n: k, d: e }).d,
{
    assert(c.n * (c.n * k) == (c.n * c.n) * k) by (nonlinear_arith);
    assert(c.d * (c.d * e) == (c.d * c.d) * e) by (nonlinear_arith);
    assert(c.n * (-(c.n * k)) == -((c.n * c.n) * k)) by (nonlinear_arith);
}

/// Subtracting a rational whose numerator is negated is adding the rational.
proof fn lemma_rsub_of_negated(a: Ratg, b: Ratg, b2: Ratg)
    requires
        b.n == -b2.n,
        b.d == b2.d,
    ensures
        rsub(a, b) == radd(a, b2),
{
    assert(b.n * a.d == -(b2.n * a.d)) by (nonlinear_arith)
        requires
            b.n == -b2.n,
    {
    }
}

/// The scalar component of a product with a reciprocal-shaped quaternion is
/// the sum of the four squares, each scaled by the reciprocal.
#[verifier::spinoff_prover]
proof fn lemma_recip_w_shape(p: Quatg, iv: Quatg, k: int, e: int)
    requires
        iv.x == (Ratg { n: -(p.x.n * k), d: p.x.d * e }),
        iv.y == (Ratg { n: -(p.y.n * k), d: p.y.d * e }),
        iv.z == (Ratg { n: -(p.z.n * k), d: p.z.d * e }),
        iv.w == (Ratg { n: p.w.n * k, d: p.w.d * e }),
    ensures
        qmul_v(p, iv).w == radd(
            radd(
                radd(
                    rmul(rmul(p.w, p.w), Ratg { n: k, d: e }),
                    rmul(rmul(p.x, p.x), Ratg { n: k, d: e }),
                ),
                rmul(rmul(p.y, p.y), Ratg { n: k, d: e }),
            ),
            rmul(rmul(p.z, p.z), Ratg { n: k, d: e }),
        ),
{
    let mm = Ratg { n: k, d: e };
    lemma_inv_square_shape(p.w, k, e);
    lemma_inv_square_shape(p.x, k, e);
    lemma_inv_square_shape(p.y, k, e);
    lemma_inv_square_shape(p.z, k, e);
    let p1 = rmul(rmul(p.w, p.w), mm);
    let p2 = rmul(rmul(p.x, p.x), mm);
    let p3 = rmul(rmul(p.y, p.y), mm);
    let p4 = rmul(rmul(p.z, p.z), mm);
    lemma_rsub_of_negated(p1, rmul(p.x, iv.x), p2);
    lemma_rsub_of_negated(radd(p1, p2), rmul(p.y, iv.y), p3);
    lemma_rsub_of_negated(radd(radd(p1, p2), p3), rmul(p.z, iv.z), p4);
}

/// A sum of four rationals, each scaled by the reciprocal of their own sum,
/// is one in value.
#[verifier::spinoff_prover]
proof fn lemma_fold_reciprocal_sum(sw: Ratg, sx: Ratg, sy: Ratg, sz: Ratg, m: Ratg)
    requires
        1 <= sw.d,
        1 <= sx.d,
        1 <= sy.d,
        1 <= sz.d,
        1 <= m.n,
        1 <= m.d,
        m == radd(radd(radd(sx, sy), sz), sw),
    ensures
        rat_eqv(
            radd(
                radd(
                    radd(rmul(sw, Ratg { n: m.d, d: m.n }), rmul(sx, Ratg { n: m.d, d: m.n })),
                    rmul(sy, Ratg { n: m.d, d: m.n }),
                ),
                rmul(sz, Ratg { n: m.d, d: m.n }),
            ),
            rint(1),
        ),
{
    lemma_ops_wf_all();
    let mm = Ratg { n: m.d, d: m.n };
    let p1 = rmul(sw, mm);
    let p2 = rmul(sx, mm);
    let p3 = rmul(sy, mm);
    let p4 = rmul(sz, mm);
    lemma_rdistrib(sw, sx, mm);
    let t1 = radd(sw, sx);
    lemma_radd_congr(radd(p1, p2), rmul(t1, mm), p3, p3);
    lemma_rdistrib(t1, sy, mm);
    let t2 = radd(t1, sy);
    lemma_eqv_trans(radd(radd(p1, p2), p3), radd(rmul(t1, mm), rmul(sy, mm)), rmul(t2, mm));
    lemma_radd_congr(radd(radd(p1, p2), p3), rmul(t2, mm), p4, p4);
    lemma_rdistrib(t2, sz, mm);
    let t3 = radd(t2, sz);
    lemma_eqv_trans(
        radd(radd(radd(p1, p2), p3), p4),
        radd(rmul(t2, mm), rmul(sz, mm)),
        rmul(t3, mm),
    );
    // Reorder the sum into the order the hypothesis names.
    crate::rat::lemma_radd_comm(sw, sx);
    lemma_radd_assoc(sx, sw, sy);
    crate::rat::lemma_radd_comm(sw, sy);
    lemma_radd_assoc(sx, sy, sw);
    lemma_eqv_trans(radd(radd(sx, sw), sy), radd(sx, radd(sw, sy)), radd(radd(sx, sy), sw));
    lemma_radd_congr(radd(radd(sx, sw), sy), radd(radd(sx, sy), sw), sz, sz);
    lemma_radd_assoc(radd(sx, sy), sw, sz);
    crate::rat::lemma_radd_comm(sw, sz);
    lemma_radd_assoc(radd(sx, sy), sz, sw);
    lemma_eqv_trans(
        radd(radd(radd(sx, sy), sw), sz),
        radd(radd(sx, sy), radd(sw, sz)),
        radd(radd(radd(sx, sy), sz), sw),
    );
    lemma_eqv_trans(t3, radd(radd(radd(sx, sy), sw), sz), radd(radd(radd(sx, sy), sz), sw));
    lemma_rmul_congr(t3, m, mm, mm);
    lemma_eqv_trans(radd(radd(radd(p1, p2), p3), p4), rmul(t3, mm), rmul(m, mm));
    assert(rat_eqv(rmul(m, mm), rint(1))) by (nonlinear_arith)
        requires
            mm == (Ratg { n: m.d, d: m.n }),
    {
    }
    assert(1 <= rmul(m, mm).d);
    lemma_eqv_trans(radd(radd(radd(p1, p2), p3), p4), rmul(m, mm), rint(1));
}

/// A nonzero quaternion times its true inverse is exactly the identity
/// rotation `(0, 0, 0, 1)` in value.
#[verifier::spinoff_prover]
pub proof fn lemma_qmul_inverse_ident(q: Quatg)
    requires
        q4_wf(q),
        q4_nonzero(q),
    ensures
        q4_eqv(qmul_v(q, qinv_v(q)), q4_ident()),
{
    lemma_qinv_shape(q);
    let m = magsq4_v(q);
    let inv = qinv_v(q);
    lemma_skew_component(q.w, q.x, q.y, q.z, inv.x, inv.w, inv.z, inv.y, m.d, m.n);
    lemma_skew_component(q.w, q.y, q.z, q.x, inv.y, inv.w, inv.x, inv.z, m.d, m.n);
    lemma_skew_component(q.w, q.z, q.x, q.y, inv.z, inv.w, inv.y, inv.x, m.d, m.n);
    lemma_recip_w_shape(q, inv, m.d, m.n);
    lemma_ops_wf_all();
    lemma_fold_reciprocal_sum(rmul(q.w, q.w), rmul(q.x, q.x), rmul(q.y, q.y), rmul(q.z, q.z), m);
}

/// A product squared is the product of the squares.
proof fn lemma_sq_factor(a: int, b: int)
    ensures
        (a * b) * (a * b) == (a * a) * (b * b),
{
    assert((a * b) * (a * b) == (a * a) * (b * b)) by (nonlinear_arith);
}

/// Squared magnitudes respect value equality of vectors.
pub proof fn lemma_magsq3_congr(a: Vec3g, b: Vec3g)
    requires
        v3_eqv(a, b),
        v3_wf(a),
        v3_wf(b),
    ensures
        rat_eqv(magsq3_v(a), magsq3_v(b)),
        rat_wfg(magsq3_v(a)),
        rat_wfg(magsq3_v(b)),
{
    lemma_ops_wf_all();
    lemma_rmul_congr(a.x, b.x, a.x, b.x);
    lemma_rmul_congr(a.y, b.y, a.y, b.y);
    lemma_rmul_congr(a.z, b.z, a.z, b.z);
    lemma_radd_congr(rmul(a.x, a.x), rmul(b.x, b.x), rmul(a.y, a.y), rmul(b.y, b.y));
    lemma_radd_congr(
        radd(rmul(a.x, a.x), rmul(a.y, a.y)),
        radd(rmul(b.x, b.x), rmul(b.y, b.y)),
        rmul(a.z, a.z),
        rmul(b.z, b.z),
    );
}

/// A vector divided by any positive under-approximation `m` of its magnitude
/// (`m * m <= |v|^2`, as `get_magnitude` guarantees through `sqrt_rel`) has
/// squared magnitude at least one.
pub proof fn lemma_normalized_at_least_unit(v: Vec3g, m: Ratg)
    requires
        v3_wf(v),
        1 <= m.d,
        m.n > 0,
        crate::rat::rat_lev(rmul(m, m), magsq3_v(v)),
    ensures
        crate::rat::rat_lev(rint(1), magsq3_v(v3_divs(v, m))),
{
    lemma_ops_wf_all();
    let mm = Ratg { n: m.d, d: m.n };
    let dv = v3_divs(v, m);
    // Dividing by m multiplies each component by the reciprocal m.d / m.n.
    assert(dv.x == rmul(v.x, mm) && dv.y == rmul(v.y, mm) && dv.z == rmul(v.z, mm));
    // Each squared component factors into the square times the squared
    // reciprocal.
    let m2 = rmul(mm, mm);
    lemma_sq_factor(v.x.n, m.d);
    lemma_sq_factor(v.x.d, m.n);
    lemma_sq_factor(v.y.n, m.d);
    lemma_sq_factor(v.y.d, m.n);
    lemma_sq_factor(v.z.n, m.d);
    lemma_sq_factor(v.z.d, m.n);
    assert(rmul(dv.x, dv.x) == rmul(rmul(v.x, v.x), m2));
    assert(rmul(dv.y, dv.y) == rmul(rmul(v.y, v.y), m2));
    assert(rmul(dv.z, dv.z) == rmul(rmul(v.z, v.z), m2));
    let sx = rmul(v.x, v.x);
    let sy = rmul(v.y, v.y);
    let sz = rmul(v.z, v.z);
    assert(1 <= m2.d && 1 <= sx.d && 1 <= sy.d && 1 <= sz.d) by (nonlinear_arith)
        requires
            1 <= m.n && 1 <= v.x.d && 1 <= v.y.d && 1 <= v.z.d,
            m2.d == m.n * m.n,
            sx.d == v.x.d * v.x.d && sy.d == v.y.d * v.y.d && sz.d == v.z.d * v.z.d,
    {
    }
    // Fold the squared reciprocal out of the sum.
    lemma_rdistrib(sx, sy, m2);
    lemma_radd_congr(
        radd(rmul(sx, m2), rmul(sy, m2)),
        rmul(radd(sx, sy), m2),
        rmul(sz, m2),
        rmul(sz, m2),
    );
    lemma_rdistrib(radd(sx, sy), sz, m2);
    lemma_eqv_trans(
        radd(radd(rmul(sx, m2), rmul(sy, m2)), rmul(sz, m2)),
        radd(rmul(radd(sx, sy), m2), rmul(sz, m2)),
        rmul(radd(radd(sx, sy), sz), m2),
    );
    let s = radd(radd(sx, sy), sz);
    assert(magsq3_v(dv) == radd(radd(rmul(sx, m2), rmul(sy, m2)), rmul(sz, m2)));
    assert(s == magsq3_v(v));
    // 1 <= s * (m.d/m.n)^2 follows from m * m <= s.
    assert(crate::rat::rat_lev(rint(1), rmul(s, m2))) by (nonlinear_arith)
        requires
            (m.n * m.n) * s.d <= s.n * (m.d * m.d),
            m2 == (Ratg { n: m.d * m.d, d: m.n * m.n }),
            1 <= s.d,
            1 <= m.d,
            m.n > 0,
    {
    }
    lemma_lev_congr(rint(1), rint(1), rmul(s, m2), magsq3_v(dv));
}

/// Scaling a strict inequality of cross products by two positive squares
/// keeps it strict.
proof fn lemma_ltv_scale_sq(sn: int, sd: int, an: int, ad: int, mn: int, md: int)
    requires
        sn * (ad * ad) < (an * an) * sd,
        1 <= mn,
        1 <= md,
    ensures
        (sn * (md * md)) * ((ad * mn) * (ad * mn)) < ((an * md) * (an * md)) * (sd * (mn * mn)),
{
    broadcast use vstd::arithmetic::mul::group_mul_properties;

    assert((sn * (md * md)) * ((ad * mn) * (ad * mn)) == (sn * (ad * ad)) * ((md * md) * (mn
        * mn)));
    assert(((an * md) * (an * md)) * (sd * (mn * mn)) == ((an * an) * sd) * ((md * md) * (mn
        * mn)));
    assert((sn * (ad * ad)) * ((md * md) * (mn * mn)) < ((an * an) * sd) * ((md * md) * (mn * mn)))
        by (nonlinear_arith)
        requires
            sn * (ad * ad) < (an * an) * sd,
            1 <= mn,
            1 <= md,
    {
    }
}

/// A vector divided by a positive magnitude approximation `m` whose square
/// brackets the squared magnitude from above (`|v|^2 < (m + 1/SQRT_DEN)^2`,
/// as `get_magnitude`'s `sqrt_rel` guarantees) has squared magnitude strictly
/// below `((m + 1/SQRT_DEN) / m)^2`: together with the lower bound this
/// brackets a normalized vector's squared magnitude around one.
pub proof fn lemma_normalized_at_most(v: Vec3g, m: Ratg)
    requires
        v3_wf(v),
        1 <= m.d,
        m.n > 0,
        rat_ltv(magsq3_v(v), rmul(radd(m, sd_unit()), radd(m, sd_unit()))),
    ensures
        rat_ltv(
            magsq3_v(v3_divs(v, m)),
            rmul(rdiv(radd(m, sd_unit()), m), rdiv(radd(m, sd_unit()), m)),
        ),
{
    lemma_ops_wf_all();
    let mm = Ratg { n: m.d, d: m.n };
    let dv = v3_divs(v, m);
    let a = radd(m, sd_unit());
    let u = rmul(rdiv(a, m), rdiv(a, m));
    assert(dv.x == rmul(v.x, mm) && dv.y == rmul(v.y, mm) && dv.z == rmul(v.z, mm));
    let m2 = rmul(mm, mm);
    lemma_sq_factor(v.x.n, m.d);
    lemma_sq_factor(v.x.d, m.n);
    lemma_sq_factor(v.y.n, m.d);
    lemma_sq_factor(v.y.d, m.n);
    lemma_sq_factor(v.z.n, m.d);
    lemma_sq_factor(v.z.d, m.n);
    assert(rmul(dv.x, dv.x) == rmul(rmul(v.x, v.x), m2));
    assert(rmul(dv.y, dv.y) == rmul(rmul(v.y, v.y), m2));
    assert(rmul(dv.z, dv.z) == rmul(rmul(v.z, v.z), m2));
    let sx = rmul(v.x, v.x);
    let sy = rmul(v.y, v.y);
    let sz = rmul(v.z, v.z);
    assert(1 <= m2.d && 1 <= sx.d && 1 <= sy.d && 1 <= sz.d) by (nonlinear_arith)
        requires
            1 <= m.n && 1 <= v.x.d && 1 <= v.y.d && 1 <= v.z.d,
            m2.d == m.n * m.n,
            sx.d == v.x.d * v.x.d && sy.d == v.y.d * v.y.d && sz.d == v.z.d * v.z.d,
    {
    }
    lemma_rdistrib(sx, sy, m2);
    lemma_radd_congr(
        radd(rmul(sx, m2), rmul(sy, m2)),
        rmul(radd(sx, sy), m2),
        rmul(sz, m2),
        rmul(sz, m2),
    );
    lemma_rdistrib(radd(sx, sy), sz, m2);
    lemma_eqv_trans(
        radd(radd(rmul(sx, m2), rmul(sy, m2)), rmul(sz, m2)),
        radd(rmul(radd(sx, sy), m2), rmul(sz, m2)),
        rmul(radd(radd(sx, sy), sz), m2),
    );
    let sq = radd(radd(sx, sy), sz);
    assert(magsq3_v(dv) == radd(radd(rmul(sx, m2), rmul(sy, m2)), rmul(sz, m2)));
    assert(sq == magsq3_v(v));
    // Scale the strict bracket by the squared reciprocal.
    lemma_ltv_scale_sq(sq.n, sq.d, a.n, a.d, m.n, m.d);
    assert(rat_ltv(rmul(sq, m2), u));
    assert(1 <= u.d && 1 <= rmul(sq, m2).d && 1 <= magsq3_v(dv).d) by (nonlinear_arith)
        requires
            1 <= sq.d,
            1 <= a.d,
            1 <= m.n,
            1 <= m.d,
            u.d == (a.d * m.n) * (a.d * m.n),
            rmul(sq, m2).d == sq.d * (m.n * m.n),
            magsq3_v(dv).d == ((v.x.d * m.n) * (v.x.d * m.n) * ((v.y.d * m.n) * (v.y.d * m.n)))
                * ((v.z.d * m.n) * (v.z.d * m.n)),
            1 <= v.x.d && 1 <= v.y.d && 1 <= v.z.d,
    {
    }
    lemma_lev_congr(rmul(sq, m2), magsq3_v(dv), u, u);
}

/// The quaternion `from_axis_angle` builds is a rotation of bracketed
/// magnitude: if the supplied half-angle pair satisfies `sin^2 + cos^2 = 1`
/// exactly, and the normalized axis `n` has squared magnitude between one
/// and `u` (the brackets `lemma_normalized_at_least_unit` and
/// `lemma_normalized_at_most` give), then the built quaternion's squared
/// magnitude also lies between one and `u`.
pub proof fn lemma_from_axis_angle_magsq(n: Vec3g, s: Ratg, c: Ratg, u: Ratg)
    requires
        v3_wf(n),
        1 <= s.d,
        1 <= c.d,
        1 <= u.d,
        rat_eqv(radd(rmul(s, s), rmul(c, c)), rint(1)),
        rat_lev(rint(1), magsq3_v(n)),
        rat_lev(magsq3_v(n), u),
    ensures
        ({
            let q = Quatg { x: rmul(n.x, s), y: rmul(n.y, s), z: rmul(n.z, s), w: c };
            rat_lev(rint(1), magsq4_v(q)) && rat_lev(magsq4_v(q), u)
        }),
{
    lemma_ops_wf_all();
    let q = Quatg { x: rmul(n.x, s), y: rmul(n.y, s), z: rmul(n.z, s), w: c };
    let s2 = rmul(s, s);
    let c2 = rmul(c, c);
    assert(0 <= s2.n && 0 <= c2.n) by (nonlinear_arith)
        requires
            s2.n == s.n * s.n,
            c2.n == c.n * c.n,
    {
    }
    // Each vector component squared factors into the axis square times s^2.
    lemma_sq_factor(n.x.n, s.n);
    lemma_sq_factor(n.x.d, s.d);
    lemma_sq_factor(n.y.n, s.n);
    lemma_sq_factor(n.y.d, s.d);
    lemma_sq_factor(n.z.n, s.n);
    lemma_sq_factor(n.z.d, s.d);
    let sx = rmul(n.x, n.x);
    let sy = rmul(n.y, n.y);
    let sz = rmul(n.z, n.z);
    assert(rmul(q.x, q.x) == rmul(sx, s2));
    assert(rmul(q.y, q.y) == rmul(sy, s2));
    assert(rmul(q.z, q.z) == rmul(sz, s2));
    // Fold s^2 out of the vector part.
    lemma_rdistrib(sx, sy, s2);
    lemma_radd_congr(
        radd(rmul(sx, s2), rmul(sy, s2)),
        rmul(radd(sx, sy), s2),
        rmul(sz, s2),
        rmul(sz, s2),
    );
    lemma_rdistrib(radd(sx, sy), sz, s2);
    lemma_eqv_trans(
        radd(radd(rmul(sx, s2), rmul(sy, s2)), rmul(sz, s2)),
        radd(rmul(radd(sx, sy), s2), rmul(sz, s2)),
        rmul(radd(radd(sx, sy), sz), s2),
    );
    let sq = radd(radd(sx, sy), sz);
    assert(sq == magsq3_v(n));
    assert(magsq4_v(q) == radd(radd(radd(rmul(sx, s2), rmul(sy, s2)), rmul(sz, s2)), c2));
    lemma_radd_congr(
        radd(radd(rmul(sx, s2), rmul(sy, s2)), rmul(sz, s2)),
        rmul(sq, s2),
        c2,
        c2,
    );
    // magsq4(q) is, in value, |n|^2 * s^2 + c^2.
    let total = radd(rmul(sq, s2), c2);
    assert(rat_eqv(magsq4_v(q), total));
    // Lower bound: |n|^2 >= 1 gives |n|^2 s^2 + c^2 >= s^2 + c^2 = 1.
    lemma_lev_mul_mono(rint(1), sq, s2);
    assert(rmul(rint(1), s2) == s2);
    lemma_lev_add_mono(s2, rmul(sq, s2), c2);
    lemma_lev_congr(radd(s2, c2), rint(1), total, total);
    lemma_lev_congr(rint(1), rint(1), total, magsq4_v(q));
    // Upper bound: |n|^2 <= u gives |n|^2 s^2 + c^2 <= u s^2 + u c^2 = u.
    lemma_lev_trans(rint(1), sq, u);
    lemma_lev_mul_mono(sq, u, s2);
    lemma_lev_add_mono(rmul(sq, s2), rmul(u, s2), c2);
    lemma_lev_mul_mono(rint(1), u, c2);
    assert(rmul(rint(1), c2) == c2);
    crate::rat::lemma_radd_comm(rmul(u, s2), c2);
    crate::rat::lemma_radd_comm(rmul(u, c2), rmul(u, s2));
    lemma_lev_add_mono(c2, rmul(u, c2), rmul(u, s2));
    crate::rat::lemma_rmul_comm(u, s2);
    crate::rat::lemma_rmul_comm(u, c2);
    lemma_rdistrib(s2, c2, u);
    lemma_rmul_congr(radd(s2, c2), rint(1), u, u);
    assert(rmul(rint(1), u) == u);
    lemma_eqv_trans(radd(rmul(s2, u), rmul(c2, u)), rmul(radd(s2, c2), u), u);
    // Chain: total <= u s^2 + c^2 <= u s^2 + u c^2, which equals u in value.
    lemma_lev_trans(total, radd(rmul(u, s2), c2), radd(rmul(u, c2), rmul(u, s2)));
    lemma_lev_congr(
        total,
        total,
        radd(rmul(u, c2), rmul(u, s2)),
        u,
    );
    lemma_lev_congr(magsq4_v(q), total, u, u);
}

/// The determinant is invariant under transposition: `det(m^T) == det(m)` in
/// value.
pub proof fn lemma_det3_transpose(m: Mat3g)
    requires
        m3_wf(m),
    ensures
        rat_eqv(det3_v(transpose3_v(m)), det3_v(m)),
{
    lemma_ops_wf_all();
    let a = m.r0.x;
    let b = m.r0.y;
    let c = m.r0.z;
    let d = m.r1.x;
    let e = m.r1.y;
    let f = m.r1.z;
    let g = m.r2.x;
    let h = m.r2.y;
    let i = m.r2.z;
    // The six signed triple products of the expansion, in a canonical shape.
    let p1 = rmul(a, rmul(e, i));
    let n1 = rmul(a, rmul(f, h));
    let n2 = rmul(b, rmul(d, i));
    let p2 = rmul(b, rmul(f, g));
    let p3 = rmul(c, rmul(d, h));
    let n3 = rmul(c, rmul(e, g));
    // Expand det(m) into those products.
    lemma_rdistrib_sub_left(a, rmul(e, i), rmul(f, h));
    lemma_rdistrib_sub_left(b, rmul(d, i), rmul(f, g));
    lemma_rdistrib_sub_left(c, rmul(d, h), rmul(e, g));
    lemma_rsub_congr(
        rmul(a, rsub(rmul(e, i), rmul(f, h))),
        rsub(p1, n1),
        rmul(b, rsub(rmul(d, i), rmul(f, g))),
        rsub(n2, p2),
    );
    lemma_radd_congr(
        rsub(rmul(a, rsub(rmul(e, i), rmul(f, h))), rmul(b, rsub(rmul(d, i), rmul(f, g)))),
        rsub(rsub(p1, n1), rsub(n2, p2)),
        rmul(c, rsub(rmul(d, h), rmul(e, g))),
        rsub(p3, n3),
    );
    let t_m = radd(rsub(rsub(p1, n1), rsub(n2, p2)), rsub(p3, n3));
    assert(rat_eqv(det3_v(m), t_m));
    // Expand det(m^T) the same way; its products canonicalize to the same six.
    let mt = transpose3_v(m);
    crate::rat::lemma_rmul_comm(h, f);
    lemma_rmul_assoc(d, b, i);
    crate::rat::lemma_rmul_comm(d, b);
    lemma_rmul_assoc(b, d, i);
    assert(rmul(d, rmul(b, i)) == n2);
    lemma_rmul_assoc(d, h, c);
    crate::rat::lemma_rmul_comm(rmul(d, h), c);
    assert(rmul(d, rmul(h, c)) == p3);
    crate::rat::lemma_rmul_comm(g, rmul(b, f));
    lemma_rmul_assoc(b, f, g);
    assert(rmul(g, rmul(b, f)) == p2);
    crate::rat::lemma_rmul_comm(e, c);
    crate::rat::lemma_rmul_comm(g, rmul(c, e));
    lemma_rmul_assoc(c, e, g);
    assert(rmul(g, rmul(e, c)) == n3);
    lemma_rdistrib_sub_left(a, rmul(e, i), rmul(h, f));
    lemma_rdistrib_sub_left(d, rmul(b, i), rmul(h, c));
    lemma_rdistrib_sub_left(g, rmul(b, f), rmul(e, c));
    lemma_rsub_congr(
        rmul(a, rsub(rmul(e, i), rmul(h, f))),
        rsub(p1, n1),
        rmul(d, rsub(rmul(b, i), rmul(h, c))),
        rsub(n2, p3),
    );
    lemma_radd_congr(
        rsub(rmul(a, rsub(rmul(e, i), rmul(h, f))), rmul(d, rsub(rmul(b, i), rmul(h, c)))),
        rsub(rsub(p1, n1), rsub(n2, p3)),
        rmul(g, rsub(rmul(b, f), rmul(e, c))),
        rsub(p2, n3),
    );
    let t_mt = radd(rsub(rsub(p1, n1), rsub(n2, p3)), rsub(p2, n3));
    assert(rat_eqv(det3_v(mt), t_mt));
    // Rewrite both as sums of signed terms; they differ by one swap.
    let a2 = rneg(n1);
    let a3 = rneg(n2);
    let a6 = rneg(n3);
    lemma_rsub_as_radd_neg(p1, n1);
    lemma_rsub_as_radd_neg(n2, p2);
    lemma_rsub_as_radd_neg(n2, p3);
    lemma_rsub_as_radd_neg(p3, n3);
    lemma_rsub_as_radd_neg(p2, n3);
    let x = radd(p1, a2);
    lemma_rsub_as_radd_neg(x, radd(n2, rneg(p2)));
    lemma_rsub_as_radd_neg(x, radd(n2, rneg(p3)));
    crate::rat::lemma_rneg_radd(n2, rneg(p2));
    crate::rat::lemma_rneg_radd(n2, rneg(p3));
    assert(t_m == radd(radd(x, radd(a3, p2)), radd(p3, a6)));
    assert(t_mt == radd(radd(x, radd(a3, p3)), radd(p2, a6)));
    // The inner reshuffle: (a3 + p2) + (p3 + a6) equals (a3 + p3) + (p2 + a6).
    let y56 = radd(p3, a6);
    let y46 = radd(p2, a6);
    lemma_radd_assoc(a3, p2, y56);
    lemma_radd_assoc(p2, p3, a6);
    lemma_radd_comm(p2, p3);
    lemma_radd_assoc(p3, p2, a6);
    lemma_eqv_trans(radd(p2, y56), radd(radd(p2, p3), a6), radd(p3, y46));
    lemma_radd_congr(a3, a3, radd(p2, y56), radd(p3, y46));
    lemma_eqv_trans(radd(radd(a3, p2), y56), radd(a3, radd(p2, y56)), radd(a3, radd(p3, y46)));
    lemma_radd_assoc(a3, p3, y46);
    lemma_eqv_trans(radd(radd(a3, p2), y56), radd(a3, radd(p3, y46)), radd(radd(a3, p3), y46));
    // Lift the reshuffle through the outer sum.
    lemma_radd_assoc(x, radd(a3, p2), y56);
    lemma_radd_congr(x, x, radd(radd(a3, p2), y56), radd(radd(a3, p3), y46));
    lemma_eqv_trans(
        radd(radd(x, radd(a3, p2)), y56),
        radd(x, radd(radd(a3, p2), y56)),
        radd(x, radd(radd(a3, p3), y46)),
    );
    lemma_radd_assoc(x, radd(a3, p3), y46);
    lemma_eqv_trans(
        radd(radd(x, radd(a3, p2)), y56),
        radd(x, radd(radd(a3, p3), y46)),
        radd(radd(x, radd(a3, p3)), y46),
    );
    // Stitch: det(m^T) ~ t_mt == reshuffled t_m ~ det(m).
    lemma_eqv_trans(det3_v(mt), t_mt, t_m);
    lemma_eqv_trans(det3_v(mt), t_m, det3_v(m));
}

/// An immovable body at rest is entirely unaffected by a tick of the
/// stepper: its velocity is untouched and its position keeps its value.
/// (An immovable body that was already moving keeps drifting: position
/// integration applies to every body.)
pub proof fn lemma_immovable_at_rest_unmoved(b: Body, nb: Body, dt: Ratg)
    requires
        body_stepped(b, nb, dt),
        b.inv_mass@.n == 0,
        v3_eqv(b.linear_velocity@, v3_zero()),
        v3_wf(b.position@),
        v3_wf(b.linear_velocity@),
        rat_wfg(dt),
    ensures
        nb.linear_velocity == b.linear_velocity,
        v3_eqv(nb.position@, b.position@),
        nb.inv_mass == b.inv_mass,
        nb.shape == b.shape,
        nb.orientation == b.orientation,
{
    lemma_ops_wf_all();
    let p = b.position@;
    let vdt = v3_scale(nb.linear_velocity@, dt);
    // The velocity is zero in value, so the step `p + v * dt` keeps `p`.
    assert(rat_eqv(radd(p.x, vdt.x), p.x) && rat_eqv(radd(p.y, vdt.y), p.y) && rat_eqv(
        radd(p.z, vdt.z),
        p.z,
    )) by (nonlinear_arith)
        requires
            b.linear_velocity@.x.n == 0,
            b.linear_velocity@.y.n == 0,
            b.linear_velocity@.z.n == 0,
            nb.linear_velocity == b.linear_velocity,
            vdt == v3_scale(nb.linear_velocity@, dt),
            p == b.position@,
            1 <= p.x.d,
            1 <= p.y.d,
            1 <= p.z.d,
            1 <= b.linear_velocity@.x.d,
            1 <= b.linear_velocity@.y.d,
            1 <= b.linear_velocity@.z.d,
            1 <= dt.d,
    {
    }
    assert(b.linear_velocity@.x.n == 0 && b.linear_velocity@.y.n == 0 && b.linear_velocity@.z.n
        == 0) by (nonlinear_arith)
        requires
            v3_eqv(b.linear_velocity@, v3_zero()),
            1 <= b.linear_velocity@.x.d,
            1 <= b.linear_velocity@.y.d,
            1 <= b.linear_velocity@.z.d,
    {
    }
    lemma_eqv_trans(nb.position@.x, radd(p.x, vdt.x), p.x);
    lemma_eqv_trans(nb.position@.y, radd(p.y, vdt.y), p.y);
    lemma_eqv_trans(nb.position@.z, radd(p.z, vdt.z), p.z);
}

} // verus!
