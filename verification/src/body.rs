//! A rigid body: a shape, an orientation, a world-space position, an inverse
//! mass (0 encodes an immovable body) and a linear velocity.

use vstd::prelude::*;
use crate::rat::{
    Rat, Ratg, lemma_eqv_trans, lemma_radd_congr, norm_r, radd, rat_eqv, rat_fits, rdiv, rint,
    rmul,
};
use crate::vec3d::{
    Vec3d, Vec3g, add3_rep, scale3_rep, sub3_rep, v3_add, v3_add_fits, v3_eqv, v3_scale,
    v3_scale_fits, v3_sub, v3_sub_fits, v3_wf, v3_zero,
};
use crate::quat::{
    Quat, Quatg, lemma_qinv_congr, lemma_qrot_congr, q4_ident, q4_nonzero, q4_wf, qinv_fits,
    qinv_rep, qinv_v, qrot_fits, qrot_rep, qrot_v,
};
use crate::shape::{ShapeT, shape_center_v};

verus! {

/// The opaque render tag a body carries for its host.
#[derive(Clone, Copy, Debug, PartialEq, Eq, Structural)]
pub enum ColorT {
    WHITE,
    RED,
    BLUE,
    GREEN,
    YELLOW,
}

/// Standard gravity, `9.8 = 49/5`, in m/s^2.
pub open spec fn gravity_r() -> Ratg {
    Ratg { n: 49, d: 5 }
}

/// A rigid body.
#[derive(Clone, Copy, Debug)]
pub struct Body {
    pub shape: ShapeT,
    pub orientation: Quat,
    pub position: Vec3d,
    /// `1 / mass`, with 0 encoding infinite mass (an immovable body).
    pub inv_mass: Rat,
    pub linear_velocity: Vec3d,
    pub color: ColorT,
}

/// The world-space center of mass: the local center of mass rotated by the
/// orientation, translated by the position.
pub open spec fn com_world_v(b: Body) -> Vec3g {
    v3_add(b.position@, qrot_v(b.orientation@, shape_center_v(b.shape)))
}

/// The representation `get_center_of_mass_world_space` returns.
pub open spec fn com_world_rep(b: Body) -> Vec3g {
    add3_rep(b.position@, qrot_rep(b.orientation@, shape_center_v(b.shape)))
}

/// Every intermediate of the world-space center of mass fits in a `Rat`.
pub open spec fn com_world_fits(b: Body) -> bool {
    &&& qrot_fits(b.orientation@, shape_center_v(b.shape))
    &&& v3_add_fits(b.position@, qrot_rep(b.orientation@, shape_center_v(b.shape)))
}

/// The world-to-body transform: translate by the world center of mass, then
/// rotate by the inverse orientation.
pub open spec fn w2b_v(b: Body, p: Vec3g) -> Vec3g {
    qrot_v(qinv_v(b.orientation@), v3_sub(p, com_world_v(b)))
}

/// Every intermediate of the world-to-body transform fits in a `Rat`.
pub open spec fn w2b_fits(b: Body, p: Vec3g) -> bool {
    &&& com_world_fits(b)
    &&& v3_sub_fits(p, com_world_rep(b))
    &&& qinv_fits(b.orientation@)
    &&& qrot_fits(qinv_rep(b.orientation@), sub3_rep(p, com_world_rep(b)))
}

/// The body-to-world transform: rotate by the orientation, then translate by
/// the world center of mass (the inverse of the world-to-body transform).
pub open spec fn b2w_v(b: Body, p: Vec3g) -> Vec3g {
    v3_add(com_world_v(b), qrot_v(b.orientation@, p))
}

/// Every intermediate of the body-to-world transform fits in a `Rat`.
pub open spec fn b2w_fits(b: Body, p: Vec3g) -> bool {
    &&& com_world_fits(b)
    &&& qrot_fits(b.orientation@, p)
    &&& v3_add_fits(com_world_rep(b), qrot_rep(b.orientation@, p))
}

impl Body {
    /// Standard gravity, `9.8 = 49/5`, in m/s^2.
    pub fn gravity() -> (r: Rat)
        ensures
            r@ == gravity_r(),
    {
        Rat::exact(49, 5)
    }

    /// Whether `new` accepts this mass: nonzero, with a reciprocal that fits
    /// back in a `Rat` (exactly `new`'s precondition; hosts test this before
    /// constructing).
    pub fn can_new(mass: Rat) -> (r: bool)
        ensures
            r == (mass@.n != 0 && rat_fits(rdiv(rint(1), mass@))),
    {
        Rat::from_int(1).div_fits(mass)
    }

    /// A body of the given mass (which must be nonzero; an immovable body is
    /// built directly with `inv_mass` zero, not through this constructor).
    pub fn new(
        shape: ShapeT,
        orientation: Quat,
        position: Vec3d,
        mass: Rat,
        velocity: Vec3d,
        color: ColorT,
    ) -> (r: Body)
        requires
            mass@.n != 0,
            rat_fits(rdiv(rint(1), mass@)),
        ensures
            r.shape == shape,
            r.orientation == orientation,
            r.position == position,
            r.linear_velocity == velocity,
            r.color == color,
            r.inv_mass@ == norm_r(rdiv(rint(1), mass@)),
            rat_eqv(r.inv_mass@, rdiv(rint(1), mass@)),
    {
        Body {
            shape,
            orientation,
            position,
            inv_mass: Rat::from_int(1).div(mass),
            linear_velocity: velocity,
            color,
        }
    }

    /// A unit-mass body of the given shape, at rest at the origin.
    pub fn new_shape(shape: ShapeT) -> (r: Body)
        ensures
            r.shape == shape,
            r.orientation@ == q4_ident(),
            r.position@ == v3_zero(),
            r.inv_mass@ == rint(1),
            r.linear_velocity@ == v3_zero(),
            r.color == ColorT::WHITE,
    {
        Body {
            shape,
            orientation: Quat::zero(),
            position: Vec3d::zero(),
            inv_mass: Rat::from_int(1),
            linear_velocity: Vec3d::zero(),
            color: ColorT::WHITE,
        }
    }

    /// A unit-mass unit sphere at rest at the origin.
    pub fn unit() -> (r: Body)
        ensures
            r.shape matches ShapeT::SphereShape { radius, center_mass } && radius@ == rint(1)
                && center_mass@ == v3_zero(),
            r.orientation@ == q4_ident(),
            r.position@ == v3_zero(),
            r.inv_mass@ == rint(1),
            r.linear_velocity@ == v3_zero(),
            r.color == ColorT::WHITE,
    {
        Body {
            shape: ShapeT::new_sphere(Rat::from_int(1)),
            orientation: Quat::zero(),
            position: Vec3d::zero(),
            inv_mass: Rat::from_int(1),
            linear_velocity: Vec3d::zero(),
            color: ColorT::WHITE,
        }
    }

    /// The center of mass in world space: the local center of mass rotated by
    /// the orientation, translated by the position.
    pub fn get_center_of_mass_world_space(&self) -> (r: Vec3d)
        requires
            q4_nonzero(self.orientation@),
            com_world_fits(*self),
        ensures
            r@ == com_world_rep(*self),
            v3_eqv(r@, com_world_v(*self)),
            v3_wf(com_world_v(*self)),
    {
        let center_mass = self.shape.get_center_mass();
        let rotated = self.orientation.rotate_point(center_mass);
        let pos = self.position.add(rotated);
        proof {
            use_type_invariant(self.position.x);
            use_type_invariant(self.position.y);
            use_type_invariant(self.position.z);
            use_type_invariant(rotated.x);
            use_type_invariant(rotated.y);
            use_type_invariant(rotated.z);
            let rv = qrot_v(self.orientation@, shape_center_v(self.shape));
            lemma_radd_congr(self.position@.x, self.position@.x, rotated@.x, rv.x);
            lemma_radd_congr(self.position@.y, self.position@.y, rotated@.y, rv.y);
            lemma_radd_congr(self.position@.z, self.position@.z, rotated@.z, rv.z);
            lemma_eqv_trans(pos@.x, radd(self.position@.x, rotated@.x), com_world_v(*self).x);
            lemma_eqv_trans(pos@.y, radd(self.position@.y, rotated@.y), com_world_v(*self).y);
            lemma_eqv_trans(pos@.z, radd(self.position@.z, rotated@.z), com_world_v(*self).z);
        }
        pos
    }

    /// The center of mass in the body's own (model) space.
    pub fn get_center_of_mass_model_space(&self) -> (r: Vec3d)
        ensures
            r@ == shape_center_v(self.shape),
    {
        self.shape.get_center_mass()
    }

    /// Converts a world-space point to body space: subtract the world-space
    /// center of mass, then rotate by the inverse orientation.
    pub fn world_space_to_body_space(&self, world: &Vec3d) -> (r: Vec3d)
        requires
            q4_nonzero(self.orientation@),
            w2b_fits(*self, world@),
        ensures
            r@ == qrot_rep(qinv_rep(self.orientation@), sub3_rep(world@, com_world_rep(*self))),
            v3_eqv(r@, w2b_v(*self, world@)),
            v3_wf(w2b_v(*self, world@)),
    {
        let com = self.get_center_of_mass_world_space();
        let tmp = world.sub(com);
        let inverse_orient = self.orientation.inverse();
        let body_space = inverse_orient.rotate_point(tmp);
        proof {
            use_type_invariant(world.x);
            use_type_invariant(world.y);
            use_type_invariant(world.z);
            use_type_invariant(com.x);
            use_type_invariant(com.y);
            use_type_invariant(com.z);
            use_type_invariant(tmp.x);
            use_type_invariant(tmp.y);
            use_type_invariant(tmp.z);
            use_type_invariant(inverse_orient.x);
            use_type_invariant(inverse_orient.y);
            use_type_invariant(inverse_orient.z);
            use_type_invariant(inverse_orient.w);
            use_type_invariant(self.orientation.x);
            use_type_invariant(self.orientation.y);
            use_type_invariant(self.orientation.z);
            use_type_invariant(self.orientation.w);
            // tmp agrees in value with the exact difference.
            crate::rat::lemma_rsub_congr(world@.x, world@.x, com@.x, com_world_v(*self).x);
            crate::rat::lemma_rsub_congr(world@.y, world@.y, com@.y, com_world_v(*self).y);
            crate::rat::lemma_rsub_congr(world@.z, world@.z, com@.z, com_world_v(*self).z);
            lemma_eqv_trans(
                tmp@.x,
                crate::rat::rsub(world@.x, com@.x),
                v3_sub(world@, com_world_v(*self)).x,
            );
            lemma_eqv_trans(
                tmp@.y,
                crate::rat::rsub(world@.y, com@.y),
                v3_sub(world@, com_world_v(*self)).y,
            );
            lemma_eqv_trans(
                tmp@.z,
                crate::rat::rsub(world@.z, com@.z),
                v3_sub(world@, com_world_v(*self)).z,
            );
            lemma_qinv_congr(self.orientation@, self.orientation@);
            lemma_qrot_congr(
                inverse_orient@,
                qinv_v(self.orientation@),
                tmp@,
                v3_sub(world@, com_world_v(*self)),
            );
            lemma_eqv_trans(
                body_space@.x,
                qrot_v(inverse_orient@, tmp@).x,
                w2b_v(*self, world@).x,
            );
            lemma_eqv_trans(
                body_space@.y,
                qrot_v(inverse_orient@, tmp@).y,
                w2b_v(*self, world@).y,
            );
            lemma_eqv_trans(
                body_space@.z,
                qrot_v(inverse_orient@, tmp@).z,
                w2b_v(*self, world@).z,
            );
        }
        body_space
    }

    /// Converts a body-space point to world space: rotate by the orientation,
    /// then translate by the world-space center of mass (the inverse of
    /// `world_space_to_body_space`).
    pub fn body_space_to_world_space(&self, body: &Vec3d) -> (r: Vec3d)
        requires
            q4_nonzero(self.orientation@),
            b2w_fits(*self, body@),
        ensures
            r@ == add3_rep(com_world_rep(*self), qrot_rep(self.orientation@, body@)),
            v3_eqv(r@, b2w_v(*self, body@)),
            v3_wf(b2w_v(*self, body@)),
    {
        let com = self.get_center_of_mass_world_space();
        let rotated = self.orientation.rotate_point(*body);
        let world_space = com.add(rotated);
        proof {
            use_type_invariant(com.x);
            use_type_invariant(com.y);
            use_type_invariant(com.z);
            use_type_invariant(rotated.x);
            use_type_invariant(rotated.y);
            use_type_invariant(rotated.z);
            let rv = qrot_v(self.orientation@, body@);
            lemma_radd_congr(com@.x, com_world_v(*self).x, rotated@.x, rv.x);
            lemma_radd_congr(com@.y, com_world_v(*self).y, rotated@.y, rv.y);
            lemma_radd_congr(com@.z, com_world_v(*self).z, rotated@.z, rv.z);
            lemma_eqv_trans(world_space@.x, radd(com@.x, rotated@.x), b2w_v(*self, body@).x);
            lemma_eqv_trans(world_space@.y, radd(com@.y, rotated@.y), b2w_v(*self, body@).y);
            lemma_eqv_trans(world_space@.z, radd(com@.z, rotated@.z), b2w_v(*self, body@).z);
        }
        world_space
    }

    /// Applies a linear impulse.  An immovable body (`inv_mass == 0`) is left
    /// untouched; otherwise the linear velocity is set to (not accumulated
    /// with) `impulse * inv_mass`.
    pub fn apply_impulse_linear(&mut self, impulse: Vec3d)
        requires
            old(self).inv_mass@.n != 0 ==> v3_scale_fits(impulse@, old(self).inv_mass@),
        ensures
            old(self).inv_mass@.n == 0 ==> *final(self) == *old(self),
            old(self).inv_mass@.n != 0 ==> *final(self) == (Body {
                linear_velocity: final(self).linear_velocity,
                ..*old(self)
            }) && final(self).linear_velocity@ == scale3_rep(impulse@, old(self).inv_mass@)
                && v3_eqv(final(self).linear_velocity@, v3_scale(impulse@, old(self).inv_mass@)),
    {
        if self.inv_mass.is_zero() {
            return ;
        }
        self.linear_velocity = impulse.scale(self.inv_mass);
    }

    /// The body's shape.
    pub fn get_shape(self) -> (r: ShapeT)
        ensures
            r == self.shape,
    {
        self.shape
    }

    /// The body's render tag.
    pub fn get_color(self) -> (r: ColorT)
        ensures
            r == self.color,
    {
        self.color
    }
}

} // verus!
