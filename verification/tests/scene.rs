//! Shapes, materials, textures and the estimator on concrete scenes.

use raytracer::fixed::Fx;
use raytracer::vec3::Vec3;
use raytracer::ray::Ray;
use raytracer::aabb::AABB;
use raytracer::sphere::Sphere;
use raytracer::moving_sphere::MovingSphere;
use raytracer::aarect::{XyRect, XzRect, YzRect};
use raytracer::box_::Box_;
use raytracer::hittable::{Hittable, HitRecord, RotateY, Translate};
use raytracer::hittable_list::HittableList;
use raytracer::constant_medium::ConstantMedium;
use raytracer::material::{Material, Lambertian, Metal, Dielectric, DiffuseLight, Isotropic};
use raytracer::texture::{Texture, SolidColor, CheckerTexture, NoiseTexture, ImageTexture};
use raytracer::perlin::{Perlin, NOISE_MAX};
use raytracer::camera::Camera;
use raytracer::tracer::estimate_radiance;
use raytracer::rng::{rng_from_seed, rand_below};
use raytracer::trig::log2_unit;
use raytracer::is_ci;

fn fx(n: i64) -> Fx {
    Fx::from_int(n)
}

fn v3(x: i64, y: i64, z: i64) -> Vec3 {
    Vec3::new(fx(x), fx(y), fx(z))
}

fn grey() -> Texture {
    Texture::SolidColor(SolidColor::new(Vec3::new(
        Fx::from_raw(32768),
        Fx::from_raw(32768),
        Fx::from_raw(32768),
    )))
}

// A ray along -z from (0,0,5) hits the unit sphere at the origin at t = 4
// with outward normal (0,0,1), front facing.
#[test]
fn unit_sphere_head_on_hit() {
    let s = Sphere::new(v3(0, 0, 0), fx(1), 0);
    let r = Ray::new(v3(0, 0, 5), v3(0, 0, -1), fx(0));
    let rec = s.hit(r, Fx::from_raw(66), fx(1000)).expect("must hit");
    assert_eq!(rec.t, fx(4));
    assert_eq!(rec.p, v3(0, 0, 1));
    assert_eq!(rec.normal, v3(0, 0, 1));
    assert!(rec.front_face);
    assert_eq!(rec.mat, 0);
}

#[test]
fn sphere_miss_and_window_rejection() {
    let s = Sphere::new(v3(0, 0, 0), fx(1), 0);
    let away = Ray::new(v3(0, 0, 5), v3(0, 0, 1), fx(0));
    assert!(s.hit(away, Fx::from_raw(66), fx(1000)).is_none());
    let toward = Ray::new(v3(0, 0, 5), v3(0, 0, -1), fx(0));
    assert!(s.hit(toward, Fx::from_raw(66), fx(3)).is_none());
}

#[test]
fn moving_sphere_follows_ray_time() {
    let ms = MovingSphere::new(v3(0, 0, 0), v3(10, 0, 0), fx(0), fx(1), fx(1), 0);
    let early = Ray::new(v3(0, 0, 5), v3(0, 0, -1), fx(0));
    let late = Ray::new(v3(10, 0, 5), v3(0, 0, -1), fx(1));
    assert_eq!(ms.hit(early, Fx::from_raw(66), fx(1000)).expect("early").t, fx(4));
    assert_eq!(ms.hit(late, Fx::from_raw(66), fx(1000)).expect("late").t, fx(4));
    assert!(ms.hit(Ray::new(v3(10, 0, 5), v3(0, 0, -1), fx(0)), Fx::from_raw(66), fx(1000))
        .is_none());
}

#[test]
fn rectangles_hit_in_plane_only() {
    let xy = XyRect::new(fx(-1), fx(1), fx(-1), fx(1), fx(0), 0);
    let r = Ray::new(v3(0, 0, 5), v3(0, 0, -1), fx(0));
    let rec = xy.hit(r, Fx::from_raw(66), fx(1000)).expect("xy");
    assert_eq!(rec.t, fx(5));
    assert_eq!(rec.normal, v3(0, 0, 1));
    let wide = Ray::new(v3(2, 0, 5), v3(0, 0, -1), fx(0));
    assert!(xy.hit(wide, Fx::from_raw(66), fx(1000)).is_none());
    let xz = XzRect::new(fx(-10), fx(10), fx(-10), fx(10), fx(0), 0);
    let down = Ray::new(v3(0, 5, 0), v3(0, -1, 0), fx(0));
    assert_eq!(xz.hit(down, Fx::from_raw(66), fx(1000)).expect("xz").t, fx(5));
    let yz = YzRect::new(fx(-10), fx(10), fx(-10), fx(10), fx(0), 0);
    let along = Ray::new(v3(5, 0, 0), v3(-1, 0, 0), fx(0));
    assert_eq!(yz.hit(along, Fx::from_raw(66), fx(1000)).expect("yz").t, fx(5));
}

// A box built from two opposite corners reports exactly those corners as
// its bounds, whatever the face materials are.
#[test]
fn box_bounding_box_is_its_corners() {
    let b = Box_::new(v3(0, 0, 0), v3(1, 2, 3), 0, 1, 2, 3, 4, 5, 6);
    let h = Hittable::Box_(b);
    let bb = h.bounding_box(fx(0), fx(1)).expect("box is bounded");
    assert_eq!(bb, AABB::new(v3(0, 0, 0), v3(1, 2, 3)));
}

#[test]
fn box_hit_through_faces() {
    let mut rng = rng_from_seed(3);
    let b = Box_::new(v3(-1, -1, -1), v3(1, 1, 1), 0, 0, 0, 0, 0, 0, 0);
    let h = Hittable::Box_(b);
    let r = Ray::new(v3(0, 0, 5), v3(0, 0, -1), fx(0));
    let rec = h.hit(r, Fx::from_raw(66), fx(1000), &mut rng).expect("box face");
    assert_eq!(rec.t, fx(4));
}

#[test]
fn translate_shifts_hits() {
    let mut rng = rng_from_seed(4);
    let inner = Hittable::Sphere(Sphere::new(v3(0, 0, 0), fx(1), 0));
    let t = Hittable::Translate(Translate::new(v3(2, 0, 0), Box::new(inner)));
    let r = Ray::new(v3(2, 0, 5), v3(0, 0, -1), fx(0));
    let rec = t.hit(r, Fx::from_raw(66), fx(1000), &mut rng).expect("translated hit");
    assert_eq!(rec.t, fx(4));
    assert_eq!(rec.p, v3(2, 0, 1));
    let miss = Ray::new(v3(0, 0, 5), v3(0, 0, -1), fx(0));
    assert!(t.hit(miss, Fx::from_raw(66), fx(1000), &mut rng).is_none());
}

#[test]
fn rotate_y_keeps_bounded_children_only() {
    let inner = Hittable::Sphere(Sphere::new(v3(0, 0, 0), fx(1), 0));
    let ry = RotateY::new(Fx::from_raw(0), fx(1), Box::new(inner)).expect("bounded child");
    assert_eq!(ry.bbox, AABB::new(v3(-1, -1, -1), v3(1, 1, 1)));
    let unbounded = Hittable::List(HittableList::new());
    assert!(RotateY::new(Fx::from_raw(0), fx(1), Box::new(unbounded)).is_none());
}

#[test]
fn rotate_y_identity_preserves_hits() {
    let mut rng = rng_from_seed(5);
    let inner = Hittable::Sphere(Sphere::new(v3(0, 0, 0), fx(1), 0));
    let ry = RotateY::new(Fx::from_raw(0), fx(1), Box::new(inner)).expect("bounded");
    let h = Hittable::RotateY(ry);
    let r = Ray::new(v3(0, 0, 5), v3(0, 0, -1), fx(0));
    let rec = h.hit(r, Fx::from_raw(66), fx(1000), &mut rng).expect("hit");
    assert_eq!(rec.t, fx(4));
}

#[test]
fn list_reports_closest_hit() {
    let mut rng = rng_from_seed(6);
    let mut l = HittableList::new();
    l.add(Hittable::Sphere(Sphere::new(v3(0, 0, 0), fx(1), 0)));
    l.add(Hittable::Sphere(Sphere::new(v3(0, 0, 3), fx(1), 1)));
    let h = Hittable::List(l);
    let r = Ray::new(v3(0, 0, 5), v3(0, 0, -1), fx(0));
    let rec = h.hit(r, Fx::from_raw(66), fx(1000), &mut rng).expect("closest");
    assert_eq!(rec.t, fx(1));
    assert_eq!(rec.mat, 1);
}

#[test]
fn list_clear_empties() {
    let mut l = HittableList::new();
    l.add(Hittable::Sphere(Sphere::new(v3(0, 0, 0), fx(1), 0)));
    assert_eq!(l.hittable_list.len(), 1);
    l.clear();
    assert_eq!(l.hittable_list.len(), 0);
}

// With the degenerate unit-vector sample injected, the diffuse scatter
// direction is exactly the surface normal.
#[test]
fn lambertian_degenerate_sample_scatters_along_normal() {
    let r = Ray::new(v3(0, 0, 5), v3(0, 0, -1), fx(0));
    let rec = HitRecord::new(v3(0, 0, 1), fx(4), fx(0), fx(0), v3(0, 0, 1), r, 0);
    let lam = Lambertian::new(grey());
    let (scattered, att) = lam.scatter(&r, &rec, Vec3::zero()).expect("always scatters");
    assert_eq!(scattered.direction, rec.normal);
    assert_eq!(scattered.origin, rec.p);
    assert_eq!(att.x.raw, 32768);
}

#[test]
fn metal_reflects_or_absorbs() {
    let r = Ray::new(v3(0, 0, 5), v3(0, 0, -1), fx(0));
    let rec = HitRecord::new(v3(0, 0, 1), fx(4), fx(0), fx(0), v3(0, 0, 1), r, 0);
    let m = Metal::new(Vec3::new(Fx::from_raw(52429), Fx::from_raw(52429), Fx::from_raw(58982)),
        fx(0));
    let (scattered, att) = m.scatter(&r, &rec, Vec3::zero()).expect("head-on reflects");
    assert_eq!(scattered.direction, v3(0, 0, 1));
    assert_eq!(att.x.raw, 52429);
    // A grazing bounce, parallel to the surface, is absorbed.
    let grazing = HitRecord::new(v3(0, 0, 1), fx(4), fx(0), fx(0), v3(1, 0, 0), r, 0);
    assert!(m.scatter(&r, &grazing, Vec3::zero()).is_none());
}

// A dielectric with index ratio one refracts a head-on ray without bending.
#[test]
fn dielectric_index_one_passes_straight() {
    let r = Ray::new(v3(0, 0, 5), v3(0, 0, -1), fx(0));
    let rec = HitRecord::new(v3(0, 0, 0), fx(5), fx(0), fx(0), v3(0, 0, 1), r, 0);
    let d = Dielectric::new(fx(1));
    let (scattered, att) = d.scatter(&r, &rec, Fx::from_raw(0)).expect("always bounces");
    assert_eq!(scattered.direction, v3(0, 0, -1));
    assert_eq!(att, v3(1, 1, 1));
}

// A grazing exit ray beyond the critical angle must reflect, not refract.
#[test]
fn dielectric_total_internal_reflection() {
    let r = Ray::new(v3(-5, 0, 0), v3(1, 0, 0), fx(0));
    let rec = HitRecord::new(v3(0, 0, 0), fx(5), fx(0), fx(0), v3(0, 0, -1), r, 0);
    assert!(!rec.front_face);
    let d = Dielectric::new(Fx::from_raw(98304));
    let (scattered, _) = d.scatter(&r, &rec, Fx::from_raw(0)).expect("always bounces");
    assert_eq!(scattered.direction, v3(1, 0, 0));
}

// A fuzz-free mirror bounce into a light is exact: half the emission.
#[test]
fn radiance_of_mirror_bounce_into_light() {
    let mut rng = rng_from_seed(23);
    let mut l = HittableList::new();
    l.add(Hittable::Sphere(Sphere::new(v3(0, 0, 0), fx(1), 0)));
    l.add(Hittable::XyRect(XyRect::new(fx(-50), fx(50), fx(-50), fx(50), fx(10), 1)));
    let world = Hittable::List(l);
    let half_grey = Vec3::new(Fx::from_raw(32768), Fx::from_raw(32768), Fx::from_raw(32768));
    let mats = vec![
        Material::Metal(Metal::new(half_grey, fx(0))),
        Material::DiffuseLight(DiffuseLight::new(Texture::SolidColor(SolidColor::new(v3(
            4, 4, 4,
        ))))),
    ];
    let r = Ray::new(v3(0, 0, 5), v3(0, 0, -1), fx(0));
    let c = estimate_radiance(&r, &Vec3::zero(), &world, &mats, 5, &mut rng);
    assert_eq!(c, v3(2, 2, 2));
}

#[test]
fn diffuse_light_never_scatters_and_emits_its_texture() {
    let light = DiffuseLight::new(Texture::SolidColor(SolidColor::new(v3(7, 7, 7))));
    let r = Ray::new(v3(0, 0, 5), v3(0, 0, -1), fx(0));
    let rec = HitRecord::new(v3(0, 0, 1), fx(4), fx(0), fx(0), v3(0, 0, 1), r, 0);
    assert!(light.scatter(&r, &rec).is_none());
    let m = Material::DiffuseLight(light);
    assert_eq!(m.emitted(fx(0), fx(0), &v3(0, 0, 1)), v3(7, 7, 7));
    let lam = Material::Lambertian(Lambertian::new(grey()));
    assert_eq!(lam.emitted(fx(0), fx(0), &v3(0, 0, 1)), v3(0, 0, 0));
}

#[test]
fn isotropic_scatters_along_the_sample() {
    let iso = Isotropic::new(grey());
    let r = Ray::new(v3(0, 0, 5), v3(0, 0, -1), fx(0));
    let rec = HitRecord::new(v3(0, 0, 1), fx(4), fx(0), fx(0), v3(1, 0, 0), r, 2);
    let sample = Vec3::new(Fx::from_raw(100), Fx::from_raw(-200), Fx::from_raw(300));
    let (scattered, _att) = iso.scatter(&r, &rec, sample).expect("scatters");
    assert_eq!(scattered.direction, sample);
}

#[test]
fn constant_medium_precomputes_negative_inverse_density() {
    let inner = Hittable::Sphere(Sphere::new(v3(0, 0, 0), fx(1), 0));
    let m = ConstantMedium::new(fx(1), Box::new(inner), 3);
    assert_eq!(m.neg_inv_density.raw, -65536);
    assert_eq!(m.phase_function, 3);
}

#[test]
fn medium_sampling_is_a_function_of_the_draw() {
    let inner = Hittable::Sphere(Sphere::new(v3(0, 0, 0), fx(2), 0));
    let m = ConstantMedium::new(fx(100), Box::new(inner), 3);
    let r = Ray::new(v3(0, 0, 5), v3(0, 0, -1), fx(0));
    let draw = Fx::from_raw(12345);
    let a = m.sample_interior(r, Fx::from_raw(66), fx(1000), fx(3), fx(7), fx(0), fx(0), draw);
    let b = m.sample_interior(r, Fx::from_raw(66), fx(1000), fx(3), fx(7), fx(0), fx(0), draw);
    assert_eq!(a, b);
    let rec = a.expect("a dense medium scatters inside the segment");
    assert_eq!(rec.mat, 3);
    assert!(fx(3).raw <= rec.t.raw && rec.t.raw <= fx(7).raw);
}

#[test]
fn constant_medium_hits_carry_the_phase_material() {
    let mut rng = rng_from_seed(11);
    let inner = Hittable::Sphere(Sphere::new(v3(0, 0, 0), fx(2), 0));
    let m = Hittable::ConstantMedium(ConstantMedium::new(fx(100), Box::new(inner), 3));
    let r = Ray::new(v3(0, 0, 5), v3(0, 0, -1), fx(0));
    let mut scattered_inside = false;
    for _ in 0..32 {
        if let Some(rec) = m.hit(r, Fx::from_raw(66), fx(1000), &mut rng) {
            assert_eq!(rec.mat, 3);
            assert!(rec.t.raw >= 66 && rec.t.raw <= 1000 * 65536);
            scattered_inside = true;
        }
    }
    assert!(scattered_inside, "a dense medium must scatter at least once in 32 tries");
}

// Gradient noise is a pure function of the tables and the point, bounded in
// raw magnitude; turbulence is nonnegative by construction.
#[test]
fn perlin_noise_deterministic_bounded_turbulence_nonnegative() {
    let mut rng = rng_from_seed(42);
    let pl = Perlin::new(&mut rng);
    let p = Vec3::new(Fx::from_raw(98304), Fx::from_raw(-47000), Fx::from_raw(265536));
    let n1 = pl.noise(&p);
    let n2 = pl.noise(&p);
    assert_eq!(n1, n2);
    assert!(-NOISE_MAX <= n1.raw && n1.raw <= NOISE_MAX);
    let t = pl.turb(&p, 7);
    assert!(t.raw >= 0);
}

#[test]
fn checker_picks_colors_by_sine_sign() {
    let odd = v3(1, 0, 0);
    let even = v3(0, 1, 0);
    let c = Texture::CheckerTexture(CheckerTexture::new(odd, even));
    assert_eq!(c.value(fx(0), fx(0), &v3(0, 0, 0)), even);
    let p = Vec3::new(Fx::from_raw(26214), Fx::from_raw(6554), Fx::from_raw(6554));
    assert_eq!(c.value(fx(0), fx(0), &p), odd);
}

#[test]
fn solid_and_noise_textures_stay_in_range() {
    let s = grey();
    assert_eq!(s.value(fx(0), fx(0), &v3(5, 5, 5)).x.raw, 32768);
    let mut rng = rng_from_seed(9);
    let n = Texture::NoiseTexture(NoiseTexture::new(Fx::from_raw(6554), &mut rng));
    let val = n.value(fx(0), fx(0), &v3(1, 2, 3));
    assert!(0 <= val.x.raw && val.x.raw <= 65536);
    assert_eq!(val.x, val.y);
    assert_eq!(val.y, val.z);
}

#[test]
fn image_texture_samples_pixels_exactly() {
    let img = ImageTexture::new(1, 1, vec![200, 255, 0]);
    let t = Texture::ImageTexture(img);
    let c = t.value(fx(0), fx(0), &v3(0, 0, 0));
    assert_eq!(c.x.raw, 51400);
    assert_eq!(c.y.raw, 65536);
    assert_eq!(c.z.raw, 0);
}

// A zero depth budget yields black whatever the scene holds.
#[test]
fn radiance_at_zero_depth_is_black() {
    let mut rng = rng_from_seed(1);
    let mut l = HittableList::new();
    l.add(Hittable::Sphere(Sphere::new(v3(0, 0, 0), fx(1), 0)));
    let world = Hittable::List(l);
    let mats = vec![Material::Lambertian(Lambertian::new(grey()))];
    let r = Ray::new(v3(0, 0, 5), v3(0, 0, -1), fx(0));
    let c = estimate_radiance(&r, &v3(7, 7, 7), &world, &mats, 0, &mut rng);
    assert_eq!(c, Vec3::zero());
}

// An empty scene yields exactly the background for every ray.
#[test]
fn radiance_of_empty_scene_is_background() {
    let mut rng = rng_from_seed(2);
    let world = Hittable::List(HittableList::new());
    let mats: Vec<Material> = Vec::new();
    let bg = v3(3, 2, 1);
    let r1 = Ray::new(v3(0, 0, 5), v3(0, 0, -1), fx(0));
    let r2 = Ray::new(v3(9, -4, 2), v3(1, 1, 1), fx(0));
    assert_eq!(estimate_radiance(&r1, &bg, &world, &mats, 50, &mut rng), bg);
    assert_eq!(estimate_radiance(&r2, &bg, &world, &mats, 50, &mut rng), bg);
}

#[test]
fn radiance_of_bare_light_is_its_emission() {
    let mut rng = rng_from_seed(8);
    let mut l = HittableList::new();
    l.add(Hittable::XzRect(XzRect::new(fx(-10), fx(10), fx(-10), fx(10), fx(0), 0)));
    let world = Hittable::List(l);
    let mats = vec![Material::DiffuseLight(DiffuseLight::new(Texture::SolidColor(
        SolidColor::new(v3(7, 7, 7)),
    )))];
    let r = Ray::new(v3(0, 5, 0), v3(0, -1, 0), fx(0));
    let c = estimate_radiance(&r, &Vec3::zero(), &world, &mats, 10, &mut rng);
    assert_eq!(c, v3(7, 7, 7));
}

#[test]
fn radiance_of_diffuse_scene_stays_bounded() {
    let mut rng = rng_from_seed(13);
    let mut l = HittableList::new();
    l.add(Hittable::Sphere(Sphere::new(v3(0, 0, 0), fx(1), 0)));
    l.add(Hittable::XzRect(XzRect::new(fx(-50), fx(50), fx(-50), fx(50), fx(-2), 1)));
    let world = Hittable::List(l);
    let mats = vec![
        Material::Lambertian(Lambertian::new(grey())),
        Material::DiffuseLight(DiffuseLight::new(Texture::SolidColor(SolidColor::new(v3(
            4, 4, 4,
        ))))),
    ];
    let r = Ray::new(v3(0, 0, 5), v3(0, 0, -1), fx(0));
    for _ in 0..16 {
        let c = estimate_radiance(&r, &Vec3::zero(), &world, &mats, 8, &mut rng);
        assert!(c.x.raw >= 0 && c.y.raw >= 0 && c.z.raw >= 0);
        assert!(c.x.raw <= 8 * 67108864);
    }
}

#[test]
fn camera_builds_and_shoots_into_the_viewport() {
    let cam = Camera::new(
        v3(0, 0, 5),
        v3(0, 0, 0),
        v3(0, 1, 0),
        fx(1),
        fx(1),
        fx(0),
        fx(10),
        fx(0),
        fx(1),
    ).expect("camera in range");
    let mut rng = rng_from_seed(21);
    let half = Fx::from_raw(32768);
    let r = cam.get_ray(half, half, &mut rng);
    assert_eq!(r.origin, v3(0, 0, 5));
    assert_eq!(r.direction, v3(0, 0, -10));
    assert!(r.time.raw >= 0 && r.time.raw <= 65536);
}

#[test]
fn camera_rejects_oversized_viewports() {
    let res = Camera::new(
        v3(0, 0, 5),
        v3(0, 0, 0),
        v3(0, 1, 0),
        fx(8),
        fx(8),
        fx(0),
        fx(60),
        fx(0),
        fx(1),
    );
    assert!(res.is_none());
}

#[test]
fn seeded_generator_draws_below_the_bound() {
    let mut rng = rng_from_seed(1);
    assert_eq!(rand_below(&mut rng, 1), 0);
    for _ in 0..100 {
        assert!(rand_below(&mut rng, 5) < 5);
    }
}

#[test]
fn binary_log_fixed_points() {
    assert_eq!(log2_unit(fx(1)).raw, 0);
    assert_eq!(log2_unit(Fx::from_raw(32768)).raw, -65536);
    let tiny = log2_unit(Fx::from_raw(1));
    assert!(tiny.raw <= -15 * 65536 && tiny.raw >= -17 * 65536);
}

#[test]
fn random_samplers_respect_their_ranges() {
    let mut rng = rng_from_seed(17);
    for _ in 0..20 {
        let a = Vec3::random(&mut rng);
        assert!(0 <= a.x.raw && a.x.raw < 65536);
        let b = Vec3::random_(&mut rng, fx(-2), fx(3));
        assert!(-2 * 65536 <= b.y.raw && b.y.raw < 3 * 65536);
        let c = Vec3::random_in_unit_sphere(&mut rng);
        assert!(c.squared_length().raw < 65536);
        let d = Vec3::random_unit_vector(&mut rng);
        assert!(d.x.raw.abs() <= 65552);
        let e = Vec3::random_in_hemisphere(&mut rng, v3(0, 1, 0));
        assert!(e.squared_length().raw < 65536);
        let f = Vec3::random_in_unit_disk(&mut rng);
        assert!(f.z.raw == 0 && f.squared_length().raw < 65536);
    }
}

#[test]
fn sphere_uv_poles_and_seam() {
    let (u_bottom, v_bottom) = Sphere::get_sphere_uv(&v3(0, -1, 0));
    assert_eq!(v_bottom.raw, 0);
    assert_eq!(u_bottom.raw, 32767);
    let (_, v_top) = MovingSphere::get_sphere_uv(&v3(0, 1, 0));
    assert_eq!(v_top.raw, 65536);
}

#[test]
fn is_ci_checks_the_exact_text() {
    assert!(is_ci(Some("true")));
    assert!(!is_ci(Some("false")));
    assert!(!is_ci(Some("TRUE")));
    assert!(!is_ci(None));
}
