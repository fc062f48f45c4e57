//! Tests of the scalar, vector, matrix and quaternion algebra.

use bodies::rat::Rat;
use bodies::vec2d::Vec2d;
use bodies::vec3d::Vec3d;
use bodies::vec4d::Vec4d;
use bodies::mat2::Mat2;
use bodies::mat3::Mat3;
use bodies::mat4::Mat4;
use bodies::quat::Quat;

fn r(n: i64, d: i64) -> Rat {
    Rat::new(n, d)
}

fn ri(n: i64) -> Rat {
    Rat::from_int(n)
}

fn v3(x: i64, y: i64, z: i64) -> Vec3d {
    Vec3d::new(ri(x), ri(y), ri(z))
}

/// |a - b| < 1/1000.
fn close(a: Rat, b: Rat) -> bool {
    let eps = r(1, 1000);
    let diff = a.sub(b);
    diff.lt(eps) && eps.neg().lt(diff)
}

#[test]
fn rat_arithmetic_is_exact() {
    assert!(r(1, 3).add(r(1, 6)) == r(1, 2));
    assert!(r(2, 4) == r(1, 2));
    assert!(r(1, 2).sub(r(1, 2)).is_zero());
    assert!(r(3, 4).mul(r(2, 3)) == r(1, 2));
    assert!(r(1, 2).div(r(1, 4)) == ri(2));
    assert!(r(1, 2).neg() == r(-1, 2));
    assert!(r(1, 3).lt(r(1, 2)));
    assert!(r(1, 2).le(r(1, 2)));
    assert_eq!(r(6, 4).num(), 3);
    assert_eq!(r(6, 4).den(), 2);
}

#[test]
fn rat_sqrt_of_perfect_square_is_exact() {
    assert!(ri(4).sqrt_approx() == ri(2));
    assert!(ri(9).sqrt_approx() == ri(3));
    assert!(ri(0).sqrt_approx().is_zero());
    assert!(r(1, 4).sqrt_approx() == r(1, 2));
}

#[test]
fn rat_sqrt_approximates_from_below() {
    let s = ri(2).sqrt_approx();
    // s^2 <= 2 < (s + 1/65536)^2
    assert!(s.mul(s).le(ri(2)));
    let step = Rat::exact(1, 65536);
    let above = s.add(step);
    assert!(ri(2).lt(above.mul(above)));
}

#[test]
fn vec3_normalize_has_unit_magnitude() {
    let v = v3(3, 4, 0);
    let n = v.normalize();
    // (3,4,0)/5 exactly.
    assert!(n == Vec3d::new(r(3, 5), r(4, 5), ri(0)));
    assert!(close(n.get_magnitude(), ri(1)));
    let w = v3(1, 1, 1).normalize();
    assert!(close(w.get_magnitude(), ri(1)));
}

#[test]
fn vec3_normalize_of_zero_is_zero() {
    let z = Vec3d::zero();
    assert!(z.normalize() == Vec3d::zero());
}

#[test]
fn vec3_normalize_is_idempotent_within_tolerance() {
    let v = v3(1, 2, 2);
    let once = v.normalize();
    let twice = once.normalize();
    assert!(close(once.x, twice.x));
    assert!(close(once.y, twice.y));
    assert!(close(once.z, twice.z));
    // On an exactly unit vector, normalize is the identity.
    let u = Vec3d::new(r(3, 5), r(4, 5), ri(0));
    assert!(u.normalize() == u);
}

#[test]
fn dot_is_commutative() {
    let a = v3(1, -2, 3);
    let b = v3(4, 5, -6);
    assert!(a.dot(b) == b.dot(a));
    assert!(a.dot(b) == ri(1 * 4 - 2 * 5 - 3 * 6));
}

#[test]
fn cross_is_antisymmetric_and_vanishes_on_self() {
    let a = v3(1, 2, 3);
    let b = v3(4, 5, 6);
    assert!(a.cross(b) == b.cross(a).neg());
    assert!(a.cross(b) == v3(2 * 6 - 3 * 5, 3 * 4 - 1 * 6, 1 * 5 - 2 * 4));
    assert!(a.cross(a) == Vec3d::zero());
}

#[test]
fn vec3_componentwise_ops_match() {
    let a = v3(1, 2, 3);
    let b = v3(4, 5, 6);
    assert!(a.add(b) == v3(5, 7, 9));
    let mut c = a;
    c.add_assign(b);
    assert!(c == a.add(b));
    assert!(b.sub(a) == v3(3, 3, 3));
    assert!(a.mul(b) == v3(4, 10, 18));
    assert!(a.scale(ri(2)) == v3(2, 4, 6));
    assert!(v3(2, 4, 6).div(ri(2)) == a);
    assert_eq!(a.index(0).num(), 1);
    assert_eq!(a.index(2).num(), 3);
}

#[test]
fn vec3_get_ortho_gives_equal_unit_outputs() {
    let mut u = Vec3d::zero();
    let mut v = Vec3d::zero();
    v3(0, 0, 5).get_ortho(&mut u, &mut v);
    // Both outputs are the same vector, as specified.
    assert!(u == v);
    assert!(close(u.get_magnitude(), ri(1)));
}

#[test]
fn vec2_and_vec4_behave_like_vec3() {
    let a2 = Vec2d::new(ri(3), ri(4));
    assert!(close(a2.get_magnitude(), ri(5)));
    assert!(a2.normalize() == Vec2d::new(r(3, 5), r(4, 5)));
    assert!(a2.add(Vec2d::new(ri(1), ri(1))) == Vec2d::new(ri(4), ri(5)));
    let a4 = Vec4d::new(ri(1), ri(2), ri(3), ri(4));
    let b4 = Vec4d::new(ri(5), ri(6), ri(7), ri(8));
    assert!(a4.dot(b4) == ri(5 + 12 + 21 + 32));
    assert!(a4.dot(b4) == b4.dot(a4));
    assert!(Vec4d::new(ri(2), ri(0), ri(0), ri(0)).normalize() == Vec4d::new(
        ri(1),
        ri(0),
        ri(0),
        ri(0),
    ));
    assert_eq!(a4.index(3).num(), 4);
}

#[test]
fn mat2_determinant() {
    let m = Mat2::new(Vec2d::new(ri(1), ri(2)), Vec2d::new(ri(3), ri(4)));
    assert!(m.determinant() == ri(-2));
    let mut s = m;
    s.add_assign(m);
    assert!(s.determinant() == ri(-8));
}

#[test]
fn mat3_determinant_and_trace() {
    let m = Mat3::new(v3(2, 0, 1), v3(1, 3, 2), v3(1, 1, 1));
    // det = 2*(3-2) - 0*(1-2) + 1*(1-3) = 0
    assert!(m.determinant() == ri(0));
    assert!(m.trace() == ri(6));
    let n = Mat3::new(v3(1, 2, 3), v3(0, 1, 4), v3(5, 6, 0));
    assert!(n.determinant() == ri(1));
}

#[test]
fn mat3_determinant_of_transpose_matches() {
    let m = Mat3::new(v3(1, 2, 3), v3(0, 1, 4), v3(5, 6, 0));
    assert!(m.determinant() == m.transpose().determinant());
    let s = Mat3::new(v3(2, -1, 0), v3(3, 5, 7), v3(-4, 1, 6));
    assert!(s.determinant() == s.transpose().determinant());
}

#[test]
fn mat3_inverse_undoes_the_matrix() {
    // det == 1, so the inverse is exact.
    let m = Mat3::new(v3(1, 2, 3), v3(0, 1, 4), v3(5, 6, 0));
    let inv = m.inverse();
    let v = v3(7, -2, 9);
    // inverse(M) * (M * v) == v, exactly.
    assert!(inv.mul_vec(m.mul_vec(v)) == v);
    assert!(m.mul_vec(inv.mul_vec(v)) == v);
    // Known inverse of this classic example.
    assert!(inv == Mat3::new(v3(-24, 18, 5), v3(20, -15, -4), v3(-5, 4, 1)));
}

#[test]
fn mat3_identity_fixes_vectors() {
    let v = v3(9, -3, 4);
    assert!(Mat3::identity().mul_vec(v) == v);
    assert!(Mat3::identity().determinant() == ri(1));
}

#[test]
fn mat4_determinant_transpose_and_inverse() {
    let m = Mat4::new(
        Vec4d::new(ri(1), ri(0), ri(2), ri(0)),
        Vec4d::new(ri(0), ri(1), ri(0), ri(3)),
        Vec4d::new(ri(0), ri(0), ri(1), ri(0)),
        Vec4d::new(ri(0), ri(0), ri(0), ri(1)),
    );
    assert!(m.determinant() == ri(1));
    assert!(m.transpose().determinant() == m.determinant());
    let inv = m.inverse();
    let v = Vec4d::new(ri(4), ri(-7), ri(2), ri(1));
    assert!(inv.mul_vec(m.mul_vec(v)) == v);
    assert!(Mat4::identity().trace() == ri(4));
}

#[test]
fn mat4_orient_and_lookat_shape() {
    let pos = v3(1, 2, 3);
    let fwd = v3(1, 0, 0);
    let up = v3(0, 0, 1);
    let o = Mat4::orient(pos, fwd, up);
    // left = up x fwd = (0, 1, 0); translation sits in the last column.
    assert!(o.row0 == Vec4d::new(ri(1), ri(0), ri(0), ri(1)));
    assert!(o.row1 == Vec4d::new(ri(0), ri(1), ri(0), ri(2)));
    assert!(o.row2 == Vec4d::new(ri(0), ri(0), ri(1), ri(3)));
    assert!(o.row3 == Vec4d::new(ri(0), ri(0), ri(0), ri(1)));
    let l = Mat4::lookat(v3(5, 0, 0), v3(0, 0, 0), v3(0, 0, 1));
    // Forward is +x; right = up x fwd = (0,1,0); the recomputed up is
    // right x fwd = (0,0,-1), not the input up.
    assert!(l.row0 == Vec4d::new(ri(0), ri(1), ri(0), ri(0)));
    assert!(l.row1 == Vec4d::new(ri(0), ri(0), ri(-1), ri(0)));
    assert!(l.row2 == Vec4d::new(ri(1), ri(0), ri(0), ri(-5)));
    assert!(l.row3 == Vec4d::new(ri(0), ri(0), ri(0), ri(1)));
}

#[test]
fn quat_mul_is_associative_on_samples() {
    let p = Quat::new(ri(1), ri(2), ri(3), ri(4));
    let q = Quat::new(ri(-2), ri(1), ri(0), ri(5));
    let s = Quat::new(ri(3), ri(-1), ri(2), ri(1));
    assert!(p.mul(q).mul(s) == p.mul(q.mul(s)));
}

#[test]
fn quat_times_inverse_is_identity() {
    let q = Quat::new(ri(1), ri(2), ri(3), ri(4));
    // Exact rationals: q * q^(-1) == (0, 0, 0, 1) exactly.
    assert!(q.mul(q.inverse()) == Quat::zero());
    let u = Quat::new(r(1, 2), r(1, 2), r(1, 2), r(1, 2));
    assert!(u.mul(u.inverse()) == Quat::zero());
}

#[test]
fn quat_magnitude_and_normalize() {
    let q = Quat::new(r(1, 2), r(1, 2), r(1, 2), r(1, 2));
    assert!(q.magnitute_squared() == ri(1));
    assert!(q.get_magnitude() == ri(1));
    assert!(q.normalize() == q);
    let p = Quat::new(ri(3), ri(0), ri(4), ri(0));
    assert!(close(p.normalize().get_magnitude(), ri(1)));
}

#[test]
fn quat_rotation_preserves_magnitude_exactly() {
    // A nonzero quaternion with its true inverse preserves length exactly.
    let q = Quat::new(ri(1), ri(2), ri(3), ri(4));
    let v = v3(2, -1, 5);
    let rotated = q.rotate_point(v);
    assert!(rotated.magnitude_squared() == v.magnitude_squared());
    // The identity rotation leaves the point in place.
    assert!(Quat::zero().rotate_point(v) == v);
}

#[test]
fn quat_rotation_by_axis_angle() {
    // 180 degrees about z: sin(half) = 1, cos(half) = 0.
    let q = Quat::from_axis_angle(v3(0, 0, 7), ri(1), ri(0));
    assert!(q == Quat::new(ri(0), ri(0), ri(1), ri(0)));
    let v = v3(1, 2, 3);
    assert!(q.rotate_point(v) == v3(-1, -2, 3));
}

#[test]
fn quat_rotate_matrix_rotates_rows() {
    let q = Quat::from_axis_angle(v3(0, 0, 1), ri(1), ri(0));
    let m = Mat3::new(v3(1, 0, 0), v3(0, 1, 0), v3(0, 0, 1));
    let rm = q.rotate_matrix(m);
    assert!(rm.row0 == v3(-1, 0, 0));
    assert!(rm.row1 == v3(0, -1, 0));
    assert!(rm.row2 == v3(0, 0, 1));
}

#[test]
fn quat_index_and_set_index() {
    let mut q = Quat::new(ri(1), ri(2), ri(3), ri(4));
    assert!(q.index(0) == ri(1));
    assert!(q.index(3) == ri(4));
    q.set_index(1, ri(9));
    assert!(q == Quat::new(ri(1), ri(9), ri(3), ri(4)));
}

#[test]
fn vec2_assign_ops_match_pure_ops() {
    let a = Vec2d::new(ri(1), ri(2));
    let b = Vec2d::new(ri(3), ri(5));
    let mut c = a;
    c.sub_assign(b);
    assert!(c == Vec2d::new(ri(-2), ri(-3)));
    let mut d = a;
    d.mul_assign(b);
    assert!(d == Vec2d::new(ri(3), ri(10)));
    let mut e = Vec2d::new(ri(4), ri(6));
    e.div_assign(ri(2));
    assert!(e == Vec2d::new(ri(2), ri(3)));
}

#[test]
fn vec4_assign_ops_match_pure_ops() {
    let a = Vec4d::new(ri(1), ri(2), ri(3), ri(4));
    let b = Vec4d::new(ri(4), ri(3), ri(2), ri(1));
    let mut c = a;
    c.add_assign(b);
    assert!(c == Vec4d::new(ri(5), ri(5), ri(5), ri(5)));
    let mut d = a;
    d.sub_assign(b);
    assert!(d == Vec4d::new(ri(-3), ri(-1), ri(1), ri(3)));
    let mut e = a;
    e.mul_assign(b);
    assert!(e == Vec4d::new(ri(4), ri(6), ri(6), ri(4)));
    let mut f = Vec4d::new(ri(2), ri(4), ri(6), ri(8));
    f.div_assign(ri(2));
    assert!(f == a.add(Vec4d::new(ri(0), ri(0), ri(0), ri(0))));
}

#[test]
fn mat2_matrix_product() {
    let m = Mat2::new(Vec2d::new(ri(1), ri(2)), Vec2d::new(ri(3), ri(4)));
    let mut p = m;
    p.mul_assign(m);
    assert!(p.row0 == Vec2d::new(ri(7), ri(10)));
    assert!(p.row1 == Vec2d::new(ri(15), ri(22)));
}

#[test]
fn mat3_add_scale_and_matrix_product() {
    let m = Mat3::new(v3(1, 2, 3), v3(4, 5, 6), v3(7, 8, 9));
    let s = m.add(m);
    assert!(s.row0 == v3(2, 4, 6));
    assert!(s.row2 == v3(14, 16, 18));
    let t = m.mul_scalar(ri(3));
    assert!(t.row1 == v3(12, 15, 18));
    let p = m.mul_mat(m);
    assert!(p.row0 == v3(30, 36, 42));
    assert!(p.row1 == v3(66, 81, 96));
    assert!(p.row2 == v3(102, 126, 150));
    assert!(m.mul_vec(v3(1, 0, 0)) == v3(1, 4, 7));
    assert!(m.minor(1, 1).determinant() == ri(1 * 9 - 3 * 7));
    assert!(m.cofactor(0, 1) == ri(-(4 * 9 - 6 * 7)));
}

#[test]
fn mat3_times_inverse_is_identity() {
    // Exact rationals: M * M^(-1) and M^(-1) * M are exactly the identity.
    let m = Mat3::new(v3(1, 2, 3), v3(0, 1, 4), v3(5, 6, 0));
    let inv = m.inverse();
    assert!(m.mul_mat(inv) == Mat3::identity());
    assert!(inv.mul_mat(m) == Mat3::identity());
    let d = Mat3::new(v3(2, 0, 0), v3(0, 3, 0), v3(0, 0, 4));
    let dinv = d.inverse();
    assert!(dinv.row0 == Vec3d::new(r(1, 2), ri(0), ri(0)));
    assert!(d.mul_mat(dinv) == Mat3::identity());
    assert!(dinv.mul_mat(d) == Mat3::identity());
}

#[test]
fn mat4_add_scale_and_matrix_product() {
    let a = Mat4::identity();
    let s = a.add(a);
    assert!(s.row0 == Vec4d::new(ri(2), ri(0), ri(0), ri(0)));
    let p = s.mul_mat(s);
    assert!(p.row3 == Vec4d::new(ri(0), ri(0), ri(0), ri(4)));
    assert!(a.mul_scalar(ri(5)).row2 == Vec4d::new(ri(0), ri(0), ri(5), ri(0)));
    assert!(Mat4::zero().trace() == ri(0));
}

#[test]
fn mat4_times_inverse_is_identity() {
    let m = Mat4::new(
        Vec4d::new(ri(1), ri(0), ri(2), ri(0)),
        Vec4d::new(ri(0), ri(1), ri(0), ri(3)),
        Vec4d::new(ri(0), ri(0), ri(1), ri(0)),
        Vec4d::new(ri(0), ri(0), ri(0), ri(1)),
    );
    let inv = m.inverse();
    assert!(m.mul_mat(inv) == Mat4::identity());
    assert!(inv.mul_mat(m) == Mat4::identity());
}

#[test]
fn vec3_get_ortho_low_z_normal_picks_z_axis() {
    // Normal along x: |n.z| <= 0.9, so the z axis is picked; z x x = y.
    let mut u = Vec3d::zero();
    let mut v = Vec3d::zero();
    v3(2, 0, 0).get_ortho(&mut u, &mut v);
    assert!(u == v3(0, 1, 0));
    assert!(v == u);
}
