//! Scalar, vector, ray and bounding-box arithmetic on concrete values.

use raytracer::fixed::Fx;
use raytracer::vec3::Vec3;
use raytracer::ray::Ray;
use raytracer::aabb::AABB;
use raytracer::trig;

fn fx(n: i64) -> Fx {
    Fx::from_int(n)
}

fn v3(x: i64, y: i64, z: i64) -> Vec3 {
    Vec3::new(fx(x), fx(y), fx(z))
}

#[test]
fn test_new() {
    assert_eq!(v3(1, 2, 3), v3(1, 2, 3));
}

#[test]
fn test_add() {
    assert_eq!(v3(1, 0, -1).add(v3(2, 4, 6)), v3(3, 4, 5));
}

#[test]
fn test_add_assign() {
    let mut x = v3(1, 0, -1);
    x.add_assign(v3(2, 4, 6));
    assert_eq!(x, v3(3, 4, 5));
}

#[test]
fn test_add_f64() {
    assert_eq!(v3(1, 0, -1).add_scalar(fx(233)), v3(234, 233, 232));
}

#[test]
fn test_squared_length() {
    assert_eq!(v3(1, 2, 3).squared_length(), fx(14));
}

#[test]
fn fx_products_and_quotients_truncate_exactly() {
    assert_eq!(Fx::from_raw(98304).mul(fx(2)).raw, 196608);
    assert_eq!(fx(3).div(fx(2)).raw, 98304);
    assert_eq!(fx(-3).div(fx(2)).raw, -98304);
    assert_eq!(fx(4).sqrt(), fx(2));
    assert_eq!(fx(2).sqrt().raw, 92681);
    assert_eq!(fx(0).sqrt().raw, 0);
}

#[test]
fn vector_assignment_operators() {
    let mut x = v3(1, 0, -1);
    x.sub_assign(v3(2, 4, 6));
    assert_eq!(x, v3(-1, -4, -7));
    let mut y = v3(1, 0, -1);
    y.mul_assign(fx(2));
    assert_eq!(y, v3(2, 0, -2));
    let mut z = v3(1, -2, 0);
    z.div_assign(fx(2));
    assert_eq!(z.x.raw, 32768);
    assert_eq!(z.y, fx(-1));
    assert_eq!(v3(1, 0, -1).sub_scalar(fx(1)), v3(0, -1, -2));
}

#[test]
fn vector_algebra_on_integers() {
    assert_eq!(v3(1, 2, 3).sub(v3(3, 2, 1)), v3(-2, 0, 2));
    assert_eq!(v3(1, -2, 3).neg(), v3(-1, 2, -3));
    assert_eq!(v3(1, 2, 3).mul(v3(1, 2, 3)), v3(1, 4, 9));
    assert_eq!(v3(1, 2, 3).scale(fx(2)), v3(2, 4, 6));
    assert_eq!(Vec3::dot(v3(1, 2, 3), v3(2, 3, 4)).raw, 20 * 65536);
    assert_eq!(
        Vec3::cross(v3(1, 2, 3), v3(2, 3, 4)),
        v3(8 - 9, 6 - 4, 3 - 4)
    );
    assert_eq!(Vec3::unit_vector(v3(233, 0, 0)), v3(1, 0, 0));
    assert_eq!(Vec3::unit_vector(v3(-233, 0, 0)), v3(-1, 0, 0));
    assert!(v3(0, 0, 0).near_zero());
    assert!(!v3(0, 1, 0).near_zero());
}

// A ray evaluated at zero is its origin, and evaluation is affine in the
// parameter.
#[test]
fn ray_at_zero_is_origin_and_affine() {
    let r = Ray::new(v3(1, 2, 3), v3(4, -5, 6), fx(0));
    assert_eq!(r.at(fx(0)), v3(1, 2, 3));
    assert_eq!(r.at(fx(2)), v3(1 + 8, 2 - 10, 3 + 12));
    assert_eq!(r.at(fx(-1)), v3(-3, 7, -3));
}

// The union of two boxes contains both and is the same in either order.
#[test]
fn surrounding_box_contains_both_and_commutes() {
    let a = AABB::new(v3(0, 0, 0), v3(1, 1, 1));
    let b = AABB::new(v3(-1, 2, 0), v3(0, 3, 4));
    let u = AABB::surrounding_box(a, b);
    assert_eq!(u.minimum, v3(-1, 0, 0));
    assert_eq!(u.maximum, v3(1, 3, 4));
    assert_eq!(AABB::surrounding_box(b, a), u);
    assert!(u.minimum.x.raw <= a.minimum.x.raw && a.maximum.x.raw <= u.maximum.x.raw);
    assert!(u.minimum.y.raw <= b.minimum.y.raw && b.maximum.y.raw <= u.maximum.y.raw);
}

#[test]
fn aabb_slab_test_accepts_and_rejects() {
    let b = AABB::new(v3(-1, -1, -1), v3(1, 1, 1));
    let toward = Ray::new(v3(0, 0, 5), v3(0, 0, -1), fx(0));
    let away = Ray::new(v3(0, 0, 5), v3(0, 0, 1), fx(0));
    let sideways = Ray::new(v3(0, 5, 5), v3(0, 0, -1), fx(0));
    assert!(b.hit(toward, fx(0), fx(100)));
    assert!(!b.hit(away, fx(0), fx(100)));
    assert!(!b.hit(sideways, fx(0), fx(100)));
}

#[test]
fn aabb_parallel_ray_uses_origin_slab() {
    let b = AABB::new(v3(-1, -1, -1), v3(1, 1, 1));
    let inside = Ray::new(v3(0, 0, 5), v3(0, 0, -1), fx(0));
    let outside = Ray::new(v3(0, 2, 5), v3(0, 0, -1), fx(0));
    assert!(b.hit(inside, fx(0), fx(100)));
    assert!(!b.hit(outside, fx(0), fx(100)));
}

#[test]
fn reflect_mirrors_about_the_normal() {
    let v = v3(1, -1, 0);
    let n = v3(0, 1, 0);
    assert_eq!(Vec3::reflect(v, n), v3(1, 1, 0));
}

// Snell refraction with a ratio of one: a head-on ray passes unbent.
#[test]
fn refract_head_on_identity() {
    let uv = v3(0, 0, -1);
    let n = v3(0, 0, 1);
    assert_eq!(Vec3::refract(uv, n, fx(1)), uv);
}

#[test]
fn schlick_reflectance_exact_value() {
    let r = Vec3::schlick(fx(1), Fx::from_raw(98304));
    assert_eq!(r.raw, 2621);
}

#[test]
fn sine_and_arctangent_fixed_points() {
    assert_eq!(trig::sin(fx(0)).raw, 0);
    assert_eq!(trig::atan2(fx(0), fx(1)).raw, 0);
    assert_eq!(trig::atan2(fx(1), fx(1)).raw, trig::PI_4);
    assert!(trig::sin(Fx::from_raw(trig::PI_2)).raw <= 65536);
    assert!(trig::sin(Fx::from_raw(trig::PI_2)).raw >= 60000);
    let neg = trig::sin(Fx::from_raw(trig::PI_FX + trig::PI_2));
    assert!(neg.raw < 0);
}
