//! Geometric primitives: a closed set of shapes, each with a volume and a
//! center of mass in its own local frame.

use vstd::prelude::*;
use crate::rat::{Rat, Ratg, lemma_eqv_trans, lemma_ops_wf_all, lemma_rmul_congr, norm_r, rat_eqv,
    rat_fits, rat_wfg, rint, rmul};
use crate::vec3d::{Vec3d, Vec3g, v3_eqv, v3_zero};

verus! {

/// The rational constant used for the circle ratio: the IEEE double nearest
/// the true value, as an exact fraction.
pub open spec fn pi_r() -> Ratg {
    Ratg { n: 884279719003555, d: 281474976710656 }
}

/// Four thirds, the sphere-volume coefficient.
pub open spec fn four_thirds_r() -> Ratg {
    Ratg { n: 4, d: 3 }
}

/// The exact volume of a sphere of radius `r`: `4/3 * pi * r^3`.
pub open spec fn sphere_volume_v(r: Ratg) -> Ratg {
    rmul(rmul(four_thirds_r(), pi_r()), rmul(rmul(r, r), r))
}

/// The exact volume of a box: `width * length * height`.
pub open spec fn box_volume_v(w: Ratg, l: Ratg, h: Ratg) -> Ratg {
    rmul(rmul(w, l), h)
}

/// The local center of mass of a box whose corner sits at the local origin:
/// half of each extent.
pub open spec fn box_center_v(w: Ratg, l: Ratg, h: Ratg) -> Vec3g {
    Vec3g {
        x: rmul(w, Ratg { n: 1, d: 2 }),
        y: rmul(l, Ratg { n: 1, d: 2 }),
        z: rmul(h, Ratg { n: 1, d: 2 }),
    }
}

/// A closed set of geometric primitives.
#[derive(Clone, Copy, Debug)]
pub enum ShapeT {
    SphereShape { radius: Rat, center_mass: Vec3d },
    BoxShape { width: Rat, length: Rat, height: Rat, center_mass: Vec3d },
}

/// The local center of mass stored in a shape.
pub open spec fn shape_center_v(s: ShapeT) -> Vec3g {
    match s {
        ShapeT::SphereShape { center_mass, .. } => center_mass@,
        ShapeT::BoxShape { center_mass, .. } => center_mass@,
    }
}

/// The exact volume of a shape.
pub open spec fn shape_volume_v(s: ShapeT) -> Ratg {
    match s {
        ShapeT::SphereShape { radius, .. } => sphere_volume_v(radius@),
        ShapeT::BoxShape { width, length, height, .. } => box_volume_v(width@, length@, height@),
    }
}

/// Every intermediate of `get_volume` fits in a `Rat`.
pub open spec fn shape_volume_fits(s: ShapeT) -> bool {
    match s {
        ShapeT::SphereShape { radius, .. } => {
            &&& rat_fits(rmul(four_thirds_r(), pi_r()))
            &&& rat_fits(rmul(radius@, radius@))
            &&& rat_fits(rmul(norm_r(rmul(radius@, radius@)), radius@))
            &&& rat_fits(
                rmul(
                    norm_r(rmul(four_thirds_r(), pi_r())),
                    norm_r(rmul(norm_r(rmul(radius@, radius@)), radius@)),
                ),
            )
        },
        ShapeT::BoxShape { width, length, height, .. } => {
            &&& rat_fits(rmul(width@, length@))
            &&& rat_fits(rmul(norm_r(rmul(width@, length@)), height@))
        },
    }
}

/// Every intermediate of `new_box`'s center of mass fits in a `Rat`.
pub open spec fn box_center_fits(w: Ratg, l: Ratg, h: Ratg) -> bool {
    &&& rat_fits(rmul(w, Ratg { n: 1, d: 2 }))
    &&& rat_fits(rmul(l, Ratg { n: 1, d: 2 }))
    &&& rat_fits(rmul(h, Ratg { n: 1, d: 2 }))
}

impl ShapeT {
    /// A sphere of the given radius, centered at its own origin.
    pub fn new_sphere(radius: Rat) -> (r: ShapeT)
        ensures
            r matches ShapeT::SphereShape { radius: rr, center_mass: c } && rr == radius && c@
                == v3_zero(),
            shape_center_v(r) == v3_zero(),
    {
        ShapeT::SphereShape { radius, center_mass: Vec3d::zero() }
    }

    /// Whether `new_box` accepts these extents: each halved extent fits back
    /// in a `Rat` (exactly `new_box`'s precondition).
    pub fn can_new_box(width: Rat, length: Rat, height: Rat) -> (r: bool)
        ensures
            r == box_center_fits(width@, length@, height@),
    {
        let half = Rat::exact(1, 2);
        width.mul_fits(half) && length.mul_fits(half) && height.mul_fits(half)
    }

    /// A box of the given extents whose corner sits at the local origin; its
    /// center of mass is half of each extent.
    pub fn new_box(width: Rat, length: Rat, height: Rat) -> (r: ShapeT)
        requires
            box_center_fits(width@, length@, height@),
        ensures
            r matches ShapeT::BoxShape { width: w, length: l, height: h, center_mass: c } && w
                == width && l == length && h == height && v3_eqv(
                c@,
                box_center_v(width@, length@, height@),
            ),
    {
        proof {
            use_type_invariant(width);
            use_type_invariant(length);
            use_type_invariant(height);
        }
        let half = Rat::exact(1, 2);
        let center_mass = Vec3d::new(width.mul(half), length.mul(half), height.mul(half));
        ShapeT::BoxShape { width, length, height, center_mass }
    }

    /// The volume: `4/3 * pi * r^3` for a sphere, `w * l * h` for a box.
    pub fn get_volume(&self) -> (r: Rat)
        requires
            shape_volume_fits(*self),
        ensures
            rat_eqv(r@, shape_volume_v(*self)),
            rat_wfg(shape_volume_v(*self)),
    {
        proof {
            lemma_ops_wf_all();
        }
        match self {
            ShapeT::SphereShape { radius, .. } => {
                proof {
                    use_type_invariant(*radius);
                }
                let ft = Rat::exact(4, 3);
                let pi = Rat::exact(884279719003555, 281474976710656);
                let coeff = ft.mul(pi);
                let r2 = radius.mul(*radius);
                let r3 = r2.mul(*radius);
                let vol = coeff.mul(r3);
                proof {
                    use_type_invariant(coeff);
                    use_type_invariant(r2);
                    use_type_invariant(r3);
                    lemma_rmul_congr(r2@, rmul(radius@, radius@), radius@, radius@);
                    lemma_eqv_trans(
                        r3@,
                        rmul(r2@, radius@),
                        rmul(rmul(radius@, radius@), radius@),
                    );
                    lemma_rmul_congr(
                        coeff@,
                        rmul(four_thirds_r(), pi_r()),
                        r3@,
                        rmul(rmul(radius@, radius@), radius@),
                    );
                    lemma_eqv_trans(vol@, rmul(coeff@, r3@), shape_volume_v(*self));
                }
                vol
            },
            ShapeT::BoxShape { width, length, height, .. } => {
                proof {
                    use_type_invariant(*width);
                    use_type_invariant(*length);
                    use_type_invariant(*height);
                }
                let wl = width.mul(*length);
                let vol = wl.mul(*height);
                proof {
                    use_type_invariant(wl);
                    lemma_rmul_congr(wl@, rmul(width@, length@), height@, height@);
                    lemma_eqv_trans(vol@, rmul(wl@, height@), shape_volume_v(*self));
                }
                vol
            },
        }
    }

    /// The stored local center of mass.
    pub fn get_center_mass(&self) -> (r: Vec3d)
        ensures
            r@ == shape_center_v(*self),
    {
        match self {
            ShapeT::SphereShape { center_mass, .. } => *center_mass,
            ShapeT::BoxShape { center_mass, .. } => *center_mass,
        }
    }
}

} // verus!
