//! Tests of shapes, rigid bodies and the fixed-timestep stepper.

use bodies::rat::Rat;
use bodies::vec3d::Vec3d;
use bodies::quat::Quat;
use bodies::shape::ShapeT;
use bodies::body::{Body, ColorT};
use bodies::scene::Scene;

fn r(n: i64, d: i64) -> Rat {
    Rat::new(n, d)
}

fn ri(n: i64) -> Rat {
    Rat::from_int(n)
}

fn v3(x: i64, y: i64, z: i64) -> Vec3d {
    Vec3d::new(ri(x), ri(y), ri(z))
}

/// |a - b| < 1/1000.
fn close(a: Rat, b: Rat) -> bool {
    let eps = r(1, 1000);
    let diff = a.sub(b);
    diff.lt(eps) && eps.neg().lt(diff)
}

#[test]
fn sphere_volume_formula() {
    let radius = ri(2);
    let sphere = ShapeT::new_sphere(radius);
    // 4/3 * pi * r^3, with the library's rational pi constant.
    let pi = Rat::exact(884279719003555, 281474976710656);
    let expected = Rat::exact(4, 3).mul(pi).mul(radius.mul(radius).mul(radius));
    assert!(sphere.get_volume() == expected);
    assert!(sphere.get_center_mass() == Vec3d::zero());
}

#[test]
fn box_volume_and_center() {
    let b = ShapeT::new_box(ri(2), ri(3), ri(4));
    assert!(b.get_volume() == ri(24));
    assert!(b.get_center_mass() == Vec3d::new(ri(1), r(3, 2), ri(2)));
}

#[test]
fn body_new_stores_inverse_mass() {
    let b = Body::new(
        ShapeT::new_sphere(ri(1)),
        Quat::zero(),
        v3(0, 0, 5),
        ri(4),
        Vec3d::zero(),
        ColorT::RED,
    );
    assert!(b.inv_mass == r(1, 4));
    assert!(b.get_color() == ColorT::RED);
    assert!(matches!(b.get_shape(), ShapeT::SphereShape { .. }));
}

#[test]
fn center_of_mass_world_space_translates_and_rotates() {
    // 180 degrees about z moves the box center (1, 3/2, 2) to (-1, -3/2, 2).
    let rot = Quat::new(ri(0), ri(0), ri(1), ri(0));
    let b = Body::new(
        ShapeT::new_box(ri(2), ri(3), ri(4)),
        rot,
        v3(10, 0, 0),
        ri(1),
        Vec3d::zero(),
        ColorT::WHITE,
    );
    assert!(b.get_center_of_mass_model_space() == Vec3d::new(ri(1), r(3, 2), ri(2)));
    assert!(b.get_center_of_mass_world_space() == Vec3d::new(ri(9), r(-3, 2), ri(2)));
}

#[test]
fn world_and_body_space_round_trip() {
    let rot = Quat::new(ri(0), ri(0), ri(1), ri(0));
    let b = Body::new(
        ShapeT::new_sphere(ri(1)),
        rot,
        v3(10, 0, 0),
        ri(1),
        Vec3d::zero(),
        ColorT::WHITE,
    );
    let p = v3(12, 3, -1);
    // With an exact rotation the round trip is exact.
    let q = b.body_space_to_world_space(&b.world_space_to_body_space(&p));
    assert!(q == p);
}

#[test]
fn impulse_overwrites_velocity_and_skips_immovable() {
    let mut b = Body::new(
        ShapeT::new_sphere(ri(1)),
        Quat::zero(),
        Vec3d::zero(),
        ri(2),
        v3(7, 7, 7),
        ColorT::WHITE,
    );
    b.apply_impulse_linear(v3(4, 0, -8));
    // velocity = impulse * inv_mass = (2, 0, -4): an overwrite, not a sum.
    assert!(b.linear_velocity == v3(2, 0, -4));
    let mut wall = Body {
        shape: ShapeT::new_box(ri(1), ri(1), ri(1)),
        orientation: Quat::zero(),
        position: Vec3d::zero(),
        inv_mass: ri(0),
        linear_velocity: Vec3d::zero(),
        color: ColorT::WHITE,
    };
    wall.apply_impulse_linear(v3(100, 100, 100));
    assert!(wall.linear_velocity == Vec3d::zero());
}

#[test]
fn one_tick_of_unit_mass_body_from_rest() {
    let body = Body::new(
        ShapeT::new_sphere(ri(1)),
        Quat::zero(),
        Vec3d::zero(),
        ri(1),
        Vec3d::zero(),
        ColorT::WHITE,
    );
    let mut scene = Scene::new(vec![body]);
    scene.update(ri(1));
    let after = *scene.get_body(0);
    // Velocity is exactly (0, 0, -9.8) and position exactly (0, 0, -9.8).
    assert!(after.linear_velocity == Vec3d::new(ri(0), ri(0), r(-49, 5)));
    assert!(after.position == Vec3d::new(ri(0), ri(0), r(-49, 5)));
}

#[test]
fn gravity_impulse_cancels_mass() {
    // A heavy body gains exactly the same velocity: the mass cancels.
    let body = Body::new(
        ShapeT::new_sphere(ri(1)),
        Quat::zero(),
        v3(0, 0, 100),
        ri(1000),
        Vec3d::zero(),
        ColorT::WHITE,
    );
    let mut scene = Scene::new(vec![body]);
    scene.update(r(1, 2));
    let after = *scene.get_body(0);
    assert!(after.linear_velocity == Vec3d::new(ri(0), ri(0), r(-49, 10)));
    // position = 100 - 4.9 * 0.5 = 100 - 2.45
    assert!(after.position == Vec3d::new(ri(0), ri(0), ri(100).sub(r(49, 20))));
}

#[test]
fn immovable_body_is_unaffected_by_updates() {
    let wall = Body {
        shape: ShapeT::new_box(ri(1000), ri(1000), ri(1000)),
        orientation: Quat::zero(),
        position: v3(0, 0, -1000),
        inv_mass: ri(0),
        linear_velocity: Vec3d::zero(),
        color: ColorT::WHITE,
    };
    let mut scene = Scene::new(vec![wall]);
    let mut i: usize = 0;
    while i < 10 {
        scene.update(r(1, 60));
        i += 1;
    }
    let after = *scene.get_body(0);
    assert!(after.position == v3(0, 0, -1000));
    assert!(after.linear_velocity == Vec3d::zero());
    assert!(after.inv_mass == ri(0));
}

#[test]
fn update_keeps_order_and_identity_of_bodies() {
    let a = Body::new(
        ShapeT::new_sphere(ri(1)),
        Quat::zero(),
        v3(1, 0, 0),
        ri(1),
        Vec3d::zero(),
        ColorT::RED,
    );
    let b = Body::new(
        ShapeT::new_sphere(ri(2)),
        Quat::zero(),
        v3(2, 0, 0),
        ri(1),
        Vec3d::zero(),
        ColorT::BLUE,
    );
    let mut scene = Scene::new(vec![a, b]);
    scene.update(ri(1));
    assert_eq!(scene.num_bodies(), 2);
    assert!(scene.get_body(0).get_color() == ColorT::RED);
    assert!(scene.get_body(1).get_color() == ColorT::BLUE);
    assert!(scene.get_body(0).position.x == ri(1));
    assert!(scene.get_body(1).position.x == ri(2));
}

#[test]
fn init_spawns_object_and_ground() {
    let mut scene = Scene::new(Vec::new());
    scene.init();
    assert_eq!(scene.num_bodies(), 2);
    let object = *scene.get_body(0);
    assert!(object.position == v3(0, 0, 5));
    assert!(object.inv_mass == ri(1));
    assert!(matches!(object.shape, ShapeT::SphereShape { .. }));
    let ground = *scene.get_body(1);
    assert!(ground.position == v3(0, 0, -1000));
    assert!(ground.inv_mass == ri(0));
    assert!(matches!(ground.shape, ShapeT::BoxShape { .. }));
}

#[test]
fn falling_sphere_approaches_ground() {
    let mut scene = Scene::new(Vec::new());
    scene.init();
    let mut i: usize = 0;
    while i < 3 {
        scene.update(r(1, 10));
        i += 1;
    }
    let object = *scene.get_body(0);
    // After each tick the velocity is exactly -9.8 * 0.1 = -0.98; three
    // position steps of -0.098 each.
    assert!(object.linear_velocity == Vec3d::new(ri(0), ri(0), r(-49, 50)));
    assert!(object.position == Vec3d::new(ri(0), ri(0), ri(5).sub(r(147, 500))));
    // The ground has not moved.
    assert!(scene.get_body(1).position == v3(0, 0, -1000));
}

#[test]
fn gravity_constant_value() {
    assert!(Body::gravity() == r(49, 5));
    assert!(close(Body::gravity(), r(98, 10)));
}

#[test]
fn body_default_constructors() {
    let b = Body::new_shape(ShapeT::new_box(ri(1), ri(2), ri(3)));
    assert!(b.inv_mass == ri(1));
    assert!(b.position == Vec3d::zero());
    assert!(b.linear_velocity == Vec3d::zero());
    assert!(b.get_color() == ColorT::WHITE);
    let u = Body::unit();
    assert!(matches!(u.get_shape(), ShapeT::SphereShape { .. }));
    assert!(u.orientation == Quat::zero());
}

#[test]
fn scene_add_body_appends_in_order() {
    let mut scene = Scene::new(Vec::new());
    scene.add_body(Body::unit());
    let mut second = Body::unit();
    second.color = ColorT::GREEN;
    scene.add_body(second);
    assert_eq!(scene.num_bodies(), 2);
    assert!(scene.get_body(0).get_color() == ColorT::WHITE);
    assert!(scene.get_body(1).get_color() == ColorT::GREEN);
}

#[test]
fn moving_immovable_body_still_drifts() {
    // Position integration applies to every body: an immovable body with a
    // preexisting velocity keeps drifting at that velocity.
    let wall = Body {
        shape: ShapeT::new_box(ri(1), ri(1), ri(1)),
        orientation: Quat::zero(),
        position: Vec3d::zero(),
        inv_mass: ri(0),
        linear_velocity: v3(1, 0, 0),
        color: ColorT::WHITE,
    };
    let mut scene = Scene::new(vec![wall]);
    scene.update(ri(2));
    assert!(scene.get_body(0).linear_velocity == v3(1, 0, 0));
    assert!(scene.get_body(0).position == v3(2, 0, 0));
}

#[test]
fn guards_accept_the_demo_and_reject_zero_mass() {
    // The executable guards mirror the preconditions of the constructors and
    // the stepper.
    assert!(Body::can_new(ri(1)));
    assert!(Body::can_new(r(1, 1000)));
    assert!(!Body::can_new(ri(0)));
    assert!(ShapeT::can_new_box(ri(10), r(1, 100), ri(10)));
    let mut scene = Scene::new(Vec::new());
    scene.init();
    assert!(scene.can_update(r(1, 60)));
    scene.update(r(1, 60));
    assert!(scene.can_update(r(1, 60)));
}

#[test]
fn rat_fits_guards_match_the_operations() {
    assert!(r(1, 3).add_fits(r(1, 6)));
    assert!(ri(5).sub_fits(ri(9)));
    assert!(r(3, 4).mul_fits(r(2, 3)));
    assert!(r(1, 2).div_fits(r(1, 4)));
    assert!(!r(1, 2).div_fits(ri(0)));
}
