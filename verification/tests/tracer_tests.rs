use raytracer::camera::Camera;
use raytracer::color::color;
use raytracer::fixed::Fx;
use raytracer::hittable::{Hit_Record, Hittable};
use raytracer::material::{random_in_unit_sphere, scatter, Material};
use raytracer::random::RandomSource;
use raytracer::ray::Ray;
use raytracer::render::render;
use raytracer::scene::Scene;
use raytracer::vec3::Vec3;

fn fx(n: i64) -> Fx {
    Fx::from_units(n)
}

fn raw(n: i64) -> Fx {
    Fx::from_raw(n)
}

fn v3(x: i64, y: i64, z: i64) -> Vec3 {
    Vec3::new(fx(x), fx(y), fx(z))
}

fn gray() -> Material {
    Material::Lambertian { albedo: Vec3::new(raw(500_000), raw(500_000), raw(500_000)) }
}

#[test]
fn ray_at_is_origin_plus_scaled_direction() {
    let r = Ray::new(v3(1, 2, 3), v3(4, 5, 6));
    let p = r.at(fx(2));
    assert_eq!(p, r.origin.add(r.direction.mul(fx(2))));
    assert_eq!(p, v3(9, 12, 15));
}

#[test]
fn unit_vector_length_is_close_to_one() {
    let v = v3(1, 2, 3);
    let len = v.unit_vector().length().raw();
    assert!((len - 1_000_000).abs() <= 3);
    let w = Vec3::new(raw(-7_250_000), raw(1_333_333), raw(2_500_001));
    let wlen = w.unit_vector().length().raw();
    assert!((wlen - 1_000_000).abs() <= 3);
}

#[test]
fn sphere_hit_straight_on() {
    let s = Hittable::sphere(v3(0, 0, -1), raw(500_000), gray());
    let r = Ray::new(v3(0, 0, 0), v3(0, 0, -1));
    let rec = s.hit(&r, fx(0), fx(100)).expect("the ray points at the sphere");
    assert_eq!(rec.t.raw(), 500_000);
    assert_eq!(rec.p, Vec3::new(fx(0), fx(0), raw(-500_000)));
    assert_eq!(rec.normal, v3(0, 0, 1));
}

#[test]
fn sphere_hit_outside_interval() {
    let s = Hittable::sphere(v3(0, 0, -1), raw(500_000), gray());
    let r = Ray::new(v3(0, 0, 0), v3(0, 0, -1));
    assert!(s.hit(&r, fx(0), raw(400_000)).is_none());
    assert!(s.hit(&r, fx(2), fx(100)).is_none());
}

#[test]
fn miss_returns_background_gradient() {
    let world = Scene::new(vec![Hittable::sphere(v3(0, 0, -10), fx(1), gray())]);
    let r = Ray::new(v3(0, 0, 0), v3(0, 1, 0));
    let mut rng = RandomSource::Zero;
    let c = color(&r, &world, 0, &mut rng);
    // Straight up: the gradient parameter is one, so the color is pure
    // sky blue (0.5, 0.7, 1.0).
    assert_eq!(c, Vec3::new(raw(500_000), raw(700_000), raw(1_000_000)));
}

#[test]
fn empty_scene_renders_background() {
    let world = Scene::new(Vec::new());
    let r = Ray::new(v3(0, 0, 0), v3(0, 1, 0));
    let mut rng = RandomSource::Zero;
    let c = color(&r, &world, 0, &mut rng);
    assert_eq!(c, Vec3::new(raw(500_000), raw(700_000), raw(1_000_000)));
}

#[test]
fn depth_exhaustion_returns_black() {
    let world = Scene::new(Vec::new());
    let r = Ray::new(v3(0, 0, 0), v3(0, 1, 0));
    let mut rng = RandomSource::Zero;
    let c = color(&r, &world, 50, &mut rng);
    assert_eq!(c, v3(0, 0, 0));
}

#[test]
fn lambertian_always_scatters_with_albedo() {
    let albedo = Vec3::new(raw(500_000), raw(300_000), raw(100_000));
    let mat = Material::Lambertian { albedo };
    let r = Ray::new(v3(0, 0, 0), v3(0, 0, -1));
    let rec = Hit_Record { t: fx(1), p: v3(0, 0, -1), normal: v3(0, 0, 1), material: mat };
    let mut rng = RandomSource::Zero;
    let (att, scattered) = scatter(&mat, &r, &rec, &mut rng).expect("a diffuse bounce");
    assert_eq!(att, albedo);
    // With the zero source the bounce target is point + normal, so the
    // scattered direction is exactly the normal.
    assert_eq!(scattered.origin, rec.p);
    assert_eq!(scattered.direction, v3(0, 0, 1));
}

#[test]
fn metal_without_fuzz_mirrors_exactly() {
    let albedo = v3(1, 1, 1);
    let mat = Material::Metal { albedo, fuzz: fx(0) };
    let r = Ray::new(v3(0, 0, 1), v3(0, 0, -1));
    let rec = Hit_Record { t: fx(1), p: v3(0, 0, 0), normal: v3(0, 0, 1), material: mat };
    let mut rng = RandomSource::Zero;
    let (att, scattered) = scatter(&mat, &r, &rec, &mut rng).expect("a mirror bounce");
    assert_eq!(att, albedo);
    assert_eq!(scattered.direction, v3(0, 0, 1));
}

#[test]
fn metal_absorbs_grazing_reflection() {
    let mat = Material::Metal { albedo: v3(1, 1, 1), fuzz: fx(0) };
    let r = Ray::new(v3(-1, 0, 0), v3(1, 0, 0));
    let rec = Hit_Record { t: fx(1), p: v3(0, 0, 0), normal: v3(0, 0, 1), material: mat };
    let mut rng = RandomSource::Zero;
    assert!(scatter(&mat, &r, &rec, &mut rng).is_none());
}

#[test]
fn dielectric_index_one_transmits_unbent() {
    let mat = Material::Dielectric { ref_index: fx(1) };
    let r = Ray::new(v3(0, 0, 0), v3(0, 0, -1));
    let rec = Hit_Record { t: fx(1), p: v3(0, 0, -1), normal: v3(0, 0, 1), material: mat };
    let mut rng = RandomSource::Zero;
    let (att, scattered) = scatter(&mat, &r, &rec, &mut rng).expect("a transmission");
    assert_eq!(att, v3(1, 1, 1));
    assert_eq!(scattered.direction, v3(0, 0, -1));
}

#[test]
fn dielectric_reflects_when_draw_is_below_reflectance() {
    // Head-on glass: the Schlick reflectance is ((1-1.5)/(1+1.5))^2,
    // which is 0.04 exactly, and the zero draw falls below it, so the
    // ray reflects straight back.
    let mat = Material::Dielectric { ref_index: raw(1_500_000) };
    let r = Ray::new(v3(0, 0, 0), v3(0, 0, -1));
    let rec = Hit_Record { t: fx(1), p: v3(0, 0, -1), normal: v3(0, 0, 1), material: mat };
    let mut rng = RandomSource::Zero;
    let (att, scattered) = scatter(&mat, &r, &rec, &mut rng).expect("a reflection");
    assert_eq!(att, v3(1, 1, 1));
    assert_eq!(scattered.direction, v3(0, 0, 1));
}

#[test]
fn arithmetic_saturates_instead_of_wrapping() {
    let top = Fx::max_value();
    assert_eq!(top.add(fx(1)).raw(), top.raw());
    assert_eq!(top.neg().sub(fx(1)).raw(), -top.raw());
    assert_eq!(fx(1).div(fx(0)).raw(), top.raw());
    assert_eq!(fx(-1).div(fx(0)).raw(), -top.raw());
    assert_eq!(fx(0).div(fx(0)).raw(), 0);
}

#[test]
fn degenerate_direction_does_not_crash() {
    let s = Hittable::sphere(v3(0, 0, -1), raw(500_000), gray());
    let r = Ray::new(v3(0, 0, 0), v3(0, 0, 0));
    assert!(s.hit(&r, fx(0), fx(100)).is_none());
    let world = Scene::new(vec![s]);
    let mut rng = RandomSource::Zero;
    let c = color(&r, &world, 0, &mut rng);
    // The degenerate unit direction is the zero vector, so the gradient
    // parameter is one half: the even blend of white and sky blue.
    assert_eq!(c, Vec3::new(raw(750_000), raw(850_000), raw(1_000_000)));
}

#[test]
fn nearest_hit_is_independent_of_order() {
    let near = Hittable::sphere(v3(0, 0, -1), raw(250_000), gray());
    let far = Hittable::sphere(v3(0, 0, -2), raw(250_000), gray());
    let r = Ray::new(v3(0, 0, 0), v3(0, 0, -1));
    let one = Scene::new(vec![near, far]);
    let two = Scene::new(vec![far, near]);
    let h1 = one.hit(&r, fx(0), fx(100)).expect("the near sphere is struck");
    let h2 = two.hit(&r, fx(0), fx(100)).expect("the near sphere is struck");
    assert_eq!(h1.t.raw(), 750_000);
    assert_eq!(h1, h2);
}

#[test]
fn system_draws_stay_in_range_and_vary() {
    let mut rng = RandomSource::System;
    let mut seen = Vec::new();
    for _ in 0..100 {
        let d = rng.next_unit().raw();
        assert!((0..1_000_000).contains(&d));
        if !seen.contains(&d) {
            seen.push(d);
        }
    }
    assert!(seen.len() >= 2);
}

#[test]
fn system_ball_points_stay_in_ball() {
    let mut rng = RandomSource::System;
    for _ in 0..20 {
        let p = random_in_unit_sphere(&mut rng);
        assert!(p.length_squared().raw() < 1_000_000);
    }
}

#[test]
fn golden_image_ground_sphere() {
    let world = Scene::new(vec![Hittable::sphere(
        v3(0, -1000, 0),
        fx(1000),
        gray(),
    )]);
    let look_from = v3(13, 2, 3);
    let look_at = v3(0, 0, -1);
    let focus_dist = look_from.sub(look_at).length();
    let cam = Camera::camera(
        look_from,
        look_at,
        v3(0, 1, 0),
        raw(176_327),
        fx(1),
        raw(100_000),
        focus_dist,
    );
    let mut rng = RandomSource::Zero;
    let pix = render(&world, &cam, 2, 2, 1, &mut rng);
    let mut rng2 = RandomSource::Zero;
    let again = render(&world, &cam, 2, 2, 1, &mut rng2);
    assert_eq!(pix, again);
    // Every ray strikes the ground, bounces straight along the normal
    // and picks up the sky, attenuated by the half-gray albedo and
    // gamma-corrected.
    let expected = (127, 151, 181);
    assert_eq!(pix, vec![expected, expected, expected, expected]);
}
