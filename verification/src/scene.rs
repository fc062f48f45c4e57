//! The scene: an ordered collection of rigid bodies advanced one fixed
//! timestep at a time.  Each tick applies gravity as an impulse to every
//! movable body, then integrates every position from the updated velocity
//! (two passes, velocities first).

use vstd::prelude::*;
use crate::rat::{
    Rat, Ratg, lemma_eqv_trans, lemma_fits_from_bnd, lemma_norm, lemma_radd_congr, lemma_rmul_congr, norm_r, radd,
    rat_eqv, rat_fits, rat_wfg, rdiv, rint, rmul, rneg,
};
use crate::vec3d::{
    Vec3d, Vec3g, add3_rep, scale3_rep, v3_add, v3_add_fits, v3_eqv, v3_scale, v3_scale_fits,
    v3_zero,
};
use crate::quat::{Quat, q4_ident};
use crate::body::{Body, ColorT, gravity_r};
use crate::shape::{ShapeT, box_center_fits, shape_center_v};

verus! {

/// The gravity acceleration vector `(0, 0, -9.8)`.
pub open spec fn gvec_v() -> Vec3g {
    Vec3g { x: rint(0), y: rint(0), z: rneg(gravity_r()) }
}

/// The velocity a body holds after the gravity impulse of one tick: an
/// immovable body keeps its velocity; a movable one receives the impulse
/// `(0, 0, -9.8) * mass * dt` scaled by its inverse mass (an overwrite, not
/// an accumulation).
pub open spec fn vel_after_rep(b: Body, dt: Ratg) -> Vec3g {
    if b.inv_mass@.n == 0 {
        b.linear_velocity@
    } else {
        let m = norm_r(rdiv(rint(1), b.inv_mass@));
        scale3_rep(scale3_rep(scale3_rep(gvec_v(), m), dt), b.inv_mass@)
    }
}

/// Every intermediate of one tick of one body fits in a `Rat`.
pub open spec fn body_tick_fits(b: Body, dt: Ratg) -> bool {
    &&& (b.inv_mass@.n != 0 ==> {
        let m = norm_r(rdiv(rint(1), b.inv_mass@));
        &&& rat_fits(rdiv(rint(1), b.inv_mass@))
        &&& v3_scale_fits(gvec_v(), m)
        &&& v3_scale_fits(scale3_rep(gvec_v(), m), dt)
        &&& v3_scale_fits(scale3_rep(scale3_rep(gvec_v(), m), dt), b.inv_mass@)
    })
    &&& v3_scale_fits(vel_after_rep(b, dt), dt)
    &&& v3_add_fits(b.position@, scale3_rep(vel_after_rep(b, dt), dt))
}

/// A body after the velocity pass of one tick: everything but the linear
/// velocity is untouched; a movable body's velocity becomes exactly
/// `(0, 0, -9.8 * dt)` (the mass and inverse mass cancel), an immovable
/// body's velocity is untouched.
pub open spec fn vel_stepped(b: Body, nb: Body, dt: Ratg) -> bool {
    &&& nb.shape == b.shape
    &&& nb.orientation == b.orientation
    &&& nb.inv_mass == b.inv_mass
    &&& nb.color == b.color
    &&& nb.position == b.position
    &&& nb.linear_velocity@ == vel_after_rep(b, dt)
    &&& (b.inv_mass@.n == 0 ==> nb.linear_velocity == b.linear_velocity)
    &&& (b.inv_mass@.n != 0 ==> rat_eqv(nb.linear_velocity@.x, rint(0)) && rat_eqv(
        nb.linear_velocity@.y,
        rint(0),
    ) && rat_eqv(nb.linear_velocity@.z, rmul(rneg(gravity_r()), dt)))
}

/// A body one whole tick later: the velocity pass above, followed by the
/// position integration `position += linear_velocity * dt` over the updated
/// velocity.
pub open spec fn body_stepped(b: Body, nb: Body, dt: Ratg) -> bool {
    &&& nb.shape == b.shape
    &&& nb.orientation == b.orientation
    &&& nb.inv_mass == b.inv_mass
    &&& nb.color == b.color
    &&& nb.linear_velocity@ == vel_after_rep(b, dt)
    &&& (b.inv_mass@.n == 0 ==> nb.linear_velocity == b.linear_velocity)
    &&& (b.inv_mass@.n != 0 ==> rat_eqv(nb.linear_velocity@.x, rint(0)) && rat_eqv(
        nb.linear_velocity@.y,
        rint(0),
    ) && rat_eqv(nb.linear_velocity@.z, rmul(rneg(gravity_r()), dt)))
    &&& nb.position@ == add3_rep(b.position@, scale3_rep(nb.linear_velocity@, dt))
    &&& v3_eqv(nb.position@, v3_add(b.position@, v3_scale(nb.linear_velocity@, dt)))
}

/// Multiplying by any representation of the reciprocal and then by the
/// number itself cancels, under cross multiplication.
proof fn lemma_cancel_gen(gn: int, gd: int, tn: int, td: int, en: int, ed: int, mn: int, md: int)
    requires
        mn * en == md * ed,
    ensures
        (((gn * mn) * tn) * en) * (gd * td) == (gn * tn) * (((gd * md) * td) * ed),
{
    broadcast use vstd::arithmetic::mul::group_mul_properties;

    assert((((gn * mn) * tn) * en) * (gd * td) == ((gn * tn) * (gd * td)) * (mn * en));
    assert((gn * tn) * (((gd * md) * td) * ed) == ((gn * tn) * (gd * td)) * (md * ed));
}

/// The chain `(((g * (1/im)) * dt) * im)` computed with reduction at every
/// step equals `g * dt` in value: the mass and the inverse mass cancel.
proof fn lemma_vel_value(gx: Ratg, im: Ratg, dt: Ratg)
    requires
        1 <= gx.d,
        1 <= im.d,
        1 <= dt.d,
        im.n != 0,
    ensures
        rat_eqv(
            norm_r(rmul(norm_r(rmul(norm_r(rmul(gx, norm_r(rdiv(rint(1), im)))), dt)), im)),
            rmul(gx, dt),
        ),
        gx == rint(0) ==> rat_eqv(
            norm_r(rmul(norm_r(rmul(norm_r(rmul(gx, norm_r(rdiv(rint(1), im)))), dt)), im)),
            rint(0),
        ),
        rat_wfg(rmul(gx, dt)),
{
    let mv = rdiv(rint(1), im);
    assert(1 <= mv.d && 1 <= rmul(gx, mv).d && 1 <= rmul(rmul(gx, mv), dt).d && 1 <= rmul(
        rmul(rmul(gx, mv), dt),
        im,
    ).d && 1 <= rmul(gx, dt).d) by (nonlinear_arith)
        requires
            1 <= gx.d,
            1 <= im.d,
            1 <= dt.d,
            im.n != 0,
            mv == rdiv(rint(1), im),
    {
    }
    lemma_norm(mv);
    let m = norm_r(mv);
    lemma_rmul_congr(gx, gx, m, mv);
    lemma_norm(rmul(gx, m));
    let n1 = norm_r(rmul(gx, m));
    lemma_eqv_trans(n1, rmul(gx, m), rmul(gx, mv));
    lemma_rmul_congr(n1, rmul(gx, mv), dt, dt);
    lemma_norm(rmul(n1, dt));
    let n2 = norm_r(rmul(n1, dt));
    lemma_eqv_trans(n2, rmul(n1, dt), rmul(rmul(gx, mv), dt));
    lemma_rmul_congr(n2, rmul(rmul(gx, mv), dt), im, im);
    lemma_norm(rmul(n2, im));
    let n3 = norm_r(rmul(n2, im));
    lemma_eqv_trans(n3, rmul(n2, im), rmul(rmul(rmul(gx, mv), dt), im));
    let lhs = rmul(rmul(rmul(gx, mv), dt), im);
    assert(mv.n * im.n == mv.d * im.d) by (nonlinear_arith)
        requires
            mv == rdiv(rint(1), im),
            im.n != 0,
    {
    }
    assert(lhs.n == ((gx.n * mv.n) * dt.n) * im.n);
    assert(lhs.d == ((gx.d * mv.d) * dt.d) * im.d);
    lemma_cancel_gen(gx.n, gx.d, dt.n, dt.d, im.n, im.d, mv.n, mv.d);
    assert(rat_eqv(lhs, rmul(gx, dt)));
    lemma_eqv_trans(n3, rmul(rmul(rmul(gx, mv), dt), im), rmul(gx, dt));
    if gx == rint(0) {
        assert(rat_eqv(rmul(gx, dt), rint(0))) by (nonlinear_arith)
            requires
                gx == rint(0),
        {
        }
        lemma_eqv_trans(n3, rmul(gx, dt), rint(0));
    }
}

/// An ordered collection of rigid bodies (insertion order is simulation
/// order; bodies never interact).
pub struct Scene {
    bodies: Vec<Body>,
}

impl View for Scene {
    type V = Seq<Body>;

    closed spec fn view(&self) -> Seq<Body> {
        self.bodies@
    }
}

impl Scene {
    /// A scene over the given bodies.
    pub fn new(bodies: Vec<Body>) -> (r: Scene)
        ensures
            r@ == bodies@,
    {
        Scene { bodies }
    }

    /// The number of bodies.
    pub fn num_bodies(&self) -> (r: usize)
        ensures
            r == self@.len(),
    {
        self.bodies.len()
    }

    /// The body at index `i`.
    pub fn get_body(&self, i: usize) -> (r: &Body)
        requires
            i < self@.len(),
        ensures
            *r == self@[i as int],
    {
        &self.bodies[i]
    }

    /// Appends a body (setup only; bodies are never removed).
    pub fn add_body(&mut self, b: Body)
        ensures
            final(self)@ == old(self)@.push(b),
    {
        self.bodies.push(b);
    }

    /// Spawns the demonstration pair: a unit-mass unit sphere five units up,
    /// and an immovable very large ground cube below the origin.
    pub fn init(&mut self)
        ensures
            final(self)@.len() == old(self)@.len() + 2,
            forall|i: int| 0 <= i < old(self)@.len() ==> final(self)@[i] == old(self)@[i],
            is_demo_object(final(self)@[old(self)@.len() as int]),
            is_demo_ground(final(self)@[old(self)@.len() as int + 1]),
    {
        let object = Body {
            shape: ShapeT::new_sphere(Rat::from_int(1)),
            orientation: Quat::zero(),
            position: Vec3d::new(Rat::zero(), Rat::zero(), Rat::from_int(5)),
            inv_mass: Rat::from_int(1),
            linear_velocity: Vec3d::zero(),
            color: ColorT::WHITE,
        };
        self.bodies.push(object);
        proof {
            lemma_fits_from_bnd(rmul(rint(1000), Ratg { n: 1, d: 2 }));
            assert(box_center_fits(rint(1000), rint(1000), rint(1000)));
        }
        let ground = Body {
            shape: ShapeT::new_box(Rat::from_int(1000), Rat::from_int(1000), Rat::from_int(1000)),
            orientation: Quat::zero(),
            position: Vec3d::new(Rat::zero(), Rat::zero(), Rat::from_int(-1000)),
            inv_mass: Rat::zero(),
            linear_velocity: Vec3d::zero(),
            color: ColorT::WHITE,
        };
        proof {
            let sc = shape_center_v(ground.shape);
            let half = Ratg { n: 1, d: 2 };
            assert(rat_eqv(rmul(rint(1000), half), rint(500)));
            assert(rat_wfg(rmul(rint(1000), half)));
            lemma_eqv_trans(sc.x, rmul(rint(1000), half), rint(500));
            lemma_eqv_trans(sc.y, rmul(rint(1000), half), rint(500));
            lemma_eqv_trans(sc.z, rmul(rint(1000), half), rint(500));
        }
        self.bodies.push(ground);
    }

    /// Whether one tick of `dt_sec` stays within the stored bounds for every
    /// body (exactly `update`'s precondition; hosts test this before
    /// stepping).
    pub fn can_update(&self, dt_sec: Rat) -> (r: bool)
        ensures
            r == (forall|i: int|
                0 <= i < self@.len() ==> body_tick_fits(#[trigger] self@[i], dt_sec@)),
    {
        let n = self.bodies.len();
        let mut i: usize = 0;
        while i < n
            invariant
                i <= n,
                n == self@.len(),
                forall|j: int| 0 <= j < i as int ==> body_tick_fits(#[trigger] self@[j], dt_sec@),
            decreases n - i,
        {
            if !body_tick_fits_check(self.get_body(i), dt_sec) {
                return false;
            }
            i += 1;
        }
        true
    }

    /// Advances every body one tick of `dt_sec` seconds: first the gravity
    /// impulse updates every movable body's velocity (in insertion order),
    /// then a second pass integrates every position from the updated
    /// velocity.
    pub fn update(&mut self, dt_sec: Rat)
        requires
            forall|i: int|
                0 <= i < old(self)@.len() ==> body_tick_fits(#[trigger] old(self)@[i], dt_sec@),
        ensures
            final(self)@.len() == old(self)@.len(),
            forall|i: int|
                0 <= i < old(self)@.len() ==> body_stepped(
                    old(self)@[i],
                    #[trigger] final(self)@[i],
                    dt_sec@,
                ),
    {
        let ghost orig = old(self)@;
        let gvec = Vec3d::new(Rat::zero(), Rat::zero(), Body::gravity().neg());
        let n = self.bodies.len();
        // First pass: update every velocity.
        let mut pass1: Vec<Body> = Vec::new();
        let mut i: usize = 0;
        while i < n
            invariant
                self@ == orig,
                n == orig.len(),
                i <= n,
                pass1@.len() == i as nat,
                gvec@ == gvec_v(),
                forall|j: int|
                    0 <= j < orig.len() ==> body_tick_fits(#[trigger] orig[j], dt_sec@),
                forall|j: int|
                    0 <= j < i as int ==> vel_stepped(orig[j], #[trigger] pass1@[j], dt_sec@),
            decreases n - i,
        {
            let b = *self.get_body(i);
            let mut nb = b;
            if !b.inv_mass.is_zero() {
                proof {
                    use_type_invariant(b.inv_mass);
                    use_type_invariant(dt_sec);
                }
                let mass = Rat::from_int(1).div(b.inv_mass);
                let imp1 = gvec.scale(mass);
                let impulse = imp1.scale(dt_sec);
                nb.apply_impulse_linear(impulse);
                proof {
                    lemma_vel_value(rint(0), b.inv_mass@, dt_sec@);
                    lemma_vel_value(rneg(gravity_r()), b.inv_mass@, dt_sec@);
                }
            }
            pass1.push(nb);
            i += 1;
        }
        // Second pass: integrate every position from the updated velocity.
        let mut out: Vec<Body> = Vec::new();
        let mut k: usize = 0;
        while k < n
            invariant
                self@ == orig,
                n == orig.len(),
                k <= n,
                pass1@.len() == n as nat,
                out@.len() == k as nat,
                forall|j: int|
                    0 <= j < orig.len() ==> body_tick_fits(#[trigger] orig[j], dt_sec@),
                forall|j: int|
                    0 <= j < orig.len() ==> vel_stepped(orig[j], #[trigger] pass1@[j], dt_sec@),
                forall|j: int|
                    0 <= j < k as int ==> body_stepped(orig[j], #[trigger] out@[j], dt_sec@),
            decreases n - k,
        {
            let mut nb = pass1[k];
            let delta = nb.linear_velocity.scale(dt_sec);
            let np = nb.position.add(delta);
            proof {
                use_type_invariant(nb.position.x);
                use_type_invariant(nb.position.y);
                use_type_invariant(nb.position.z);
                use_type_invariant(delta.x);
                use_type_invariant(delta.y);
                use_type_invariant(delta.z);
                let pv = nb.position@;
                let sv = v3_scale(nb.linear_velocity@, dt_sec@);
                lemma_radd_congr(pv.x, pv.x, delta@.x, sv.x);
                lemma_radd_congr(pv.y, pv.y, delta@.y, sv.y);
                lemma_radd_congr(pv.z, pv.z, delta@.z, sv.z);
                lemma_eqv_trans(np@.x, radd(pv.x, delta@.x), radd(pv.x, sv.x));
                lemma_eqv_trans(np@.y, radd(pv.y, delta@.y), radd(pv.y, sv.y));
                lemma_eqv_trans(np@.z, radd(pv.z, delta@.z), radd(pv.z, sv.z));
            }
            nb.position = np;
            out.push(nb);
            k += 1;
        }
        self.bodies = out;
    }
}

/// The executable mirror of `body_tick_fits`: recomputes the tick's
/// intermediates and tests each bound.
fn body_tick_fits_check(b: &Body, dt_sec: Rat) -> (r: bool)
    ensures
        r == body_tick_fits(*b, dt_sec@),
{
    let gvec = Vec3d::new(Rat::zero(), Rat::zero(), Body::gravity().neg());
    if !b.inv_mass.is_zero() {
        if !Rat::from_int(1).div_fits(b.inv_mass) {
            return false;
        }
        let mass = Rat::from_int(1).div(b.inv_mass);
        if !(gvec.x.mul_fits(mass) && gvec.y.mul_fits(mass) && gvec.z.mul_fits(mass)) {
            return false;
        }
        let i1 = gvec.scale(mass);
        if !(i1.x.mul_fits(dt_sec) && i1.y.mul_fits(dt_sec) && i1.z.mul_fits(dt_sec)) {
            return false;
        }
        let i2 = i1.scale(dt_sec);
        if !(i2.x.mul_fits(b.inv_mass) && i2.y.mul_fits(b.inv_mass) && i2.z.mul_fits(
            b.inv_mass,
        )) {
            return false;
        }
        let v = i2.scale(b.inv_mass);
        if !(v.x.mul_fits(dt_sec) && v.y.mul_fits(dt_sec) && v.z.mul_fits(dt_sec)) {
            return false;
        }
        let delta = v.scale(dt_sec);
        b.position.x.add_fits(delta.x) && b.position.y.add_fits(delta.y) && b.position.z.add_fits(
            delta.z,
        )
    } else {
        let v = b.linear_velocity;
        if !(v.x.mul_fits(dt_sec) && v.y.mul_fits(dt_sec) && v.z.mul_fits(dt_sec)) {
            return false;
        }
        let delta = v.scale(dt_sec);
        b.position.x.add_fits(delta.x) && b.position.y.add_fits(delta.y) && b.position.z.add_fits(
            delta.z,
        )
    }
}

/// The movable demonstration body: a unit sphere of unit mass, at rest, five
/// units above the origin.
pub open spec fn is_demo_object(b: Body) -> bool {
    &&& b.shape matches ShapeT::SphereShape { radius, center_mass } && radius@ == rint(1)
        && center_mass@ == v3_zero()
    &&& b.orientation@ == q4_ident()
    &&& b.position@ == (Vec3g { x: rint(0), y: rint(0), z: rint(5) })
    &&& b.inv_mass@ == rint(1)
    &&& b.linear_velocity@ == v3_zero()
}

/// The immovable demonstration body: a very large cube, at rest, far below
/// the origin, with infinite mass.
pub open spec fn is_demo_ground(b: Body) -> bool {
    &&& b.shape matches ShapeT::BoxShape { width, length, height, center_mass } && width@ == rint(
        1000,
    ) && length@ == rint(1000) && height@ == rint(1000)
    &&& v3_eqv(
        shape_center_v(b.shape),
        Vec3g { x: rint(500), y: rint(500), z: rint(500) },
    )
    &&& b.orientation@ == q4_ident()
    &&& b.position@ == (Vec3g { x: rint(0), y: rint(0), z: rint(-1000) })
    &&& b.inv_mass@ == rint(0)
    &&& b.linear_velocity@ == v3_zero()
}

} // verus!
