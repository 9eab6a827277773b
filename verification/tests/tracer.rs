use path_tracer::camera::Camera;
use path_tracer::color::write_color;
use path_tracer::fixed::{fdiv, fmul, fsqrt, isqrt, SCALE};
use path_tracer::hittable::{HitRecord, Hittable, Shape};
use path_tracer::material::{reflectance, Material};
use path_tracer::ray::Ray;
use path_tracer::render::{background_color, ray_color, render, render_pixel, sample_pixel};
use path_tracer::scene::hit_world;
use path_tracer::scenes::random_scene;
use path_tracer::sphere::{hit_sphere, Sphere};
use path_tracer::util::{clamp, random_scalar, random_scalar_range};
use path_tracer::vec3::{cross, dot, reflect, refract, unit_vector, Vec3};

const T_EPS: i64 = 66;
const T_LIMIT: i64 = 0x4_0000_0000;

fn v(x: i64, y: i64, z: i64) -> Vec3 {
    Vec3::new(x, y, z)
}

#[test]
fn fixed_point_basics() {
    assert_eq!(fmul(SCALE, SCALE), SCALE);
    assert_eq!(fmul(SCALE / 2, SCALE / 2), SCALE / 4);
    assert_eq!(fmul(-SCALE, SCALE), -SCALE);
    assert_eq!(fdiv(SCALE, 2 * SCALE), SCALE / 2);
    assert_eq!(fdiv(-SCALE, 2 * SCALE), -(SCALE / 2));
    assert_eq!(fsqrt(SCALE), SCALE);
    assert_eq!(fsqrt(4 * SCALE), 2 * SCALE);
    assert_eq!(isqrt(0), 0);
    assert_eq!(isqrt(15), 3);
    assert_eq!(isqrt(16), 4);
    assert_eq!(clamp(5, 0, 3), 3);
    assert_eq!(clamp(-5, 0, 3), 0);
    assert_eq!(clamp(2, 0, 3), 2);
}

#[test]
fn vector_operations() {
    let a = v(SCALE, 2 * SCALE, -SCALE);
    let b = v(3 * SCALE, -SCALE, SCALE);
    assert_eq!(a.add(b), v(4 * SCALE, SCALE, 0));
    assert_eq!(a.sub(b), v(-2 * SCALE, 3 * SCALE, -2 * SCALE));
    assert_eq!(a.neg(), v(-SCALE, -2 * SCALE, SCALE));
    assert_eq!(dot(a, b), 3 * SCALE - 2 * SCALE - SCALE);
    assert_eq!(cross(v(SCALE, 0, 0), v(0, SCALE, 0)), v(0, 0, SCALE));
    assert_eq!(a.length_squared(), 6 * SCALE);
    assert_eq!(v(0, -3 * SCALE, 4 * SCALE).length(), 5 * SCALE);
    assert_eq!(unit_vector(v(0, 0, 7 * SCALE)), v(0, 0, SCALE));
    assert_eq!(unit_vector(v(0, -5 * SCALE, 0)), v(0, -SCALE, 0));
}

// Reflecting a reflection about the same normal returns the vector: the
// flat mirror bounce is an involution.
#[test]
fn reflect_involution() {
    let n = v(0, SCALE, 0);
    let a = v(12345, -777, 900);
    let r = reflect(a, n);
    assert_eq!(r, v(12345, 777, 900));
    assert_eq!(reflect(r, n), a);
    let m = v(SCALE, 0, 0);
    let b = v(-40000, 555, -3);
    assert_eq!(reflect(reflect(b, m), m), b);
}

// A ray aimed at the center hits at the near root with the normal
// anti-parallel to the direction.
#[test]
fn sphere_hit_aimed_at_center() {
    let s = Sphere::new(v(0, 0, -3 * SCALE), SCALE);
    let m = Material::Lambertian { albedo: v(SCALE, 0, 0) };
    let r = Ray::new(v(0, 0, 0), v(0, 0, -SCALE));
    let h = s.hit(r, T_EPS, T_LIMIT, m).expect("must hit");
    assert_eq!(h.t, 2 * SCALE);
    assert_eq!(h.p, v(0, 0, -2 * SCALE));
    assert_eq!(h.normal, v(0, 0, SCALE));
    assert!(h.front_face);
    assert!(dot(r.direction(), h.normal) <= 0);
}

// A ray passing the sphere farther than its radius reports no hit; one
// passing nearer reports the nearest of the two real roots.
#[test]
fn sphere_miss_and_near_root() {
    let m = Material::Lambertian { albedo: v(SCALE, 0, 0) };
    let far = Sphere::new(v(0, 3 * SCALE, -3 * SCALE), SCALE);
    let r = Ray::new(v(0, 0, 0), v(0, 0, -SCALE));
    assert!(far.hit(r, T_EPS, T_LIMIT, m).is_none());
    let graze = Sphere::new(v(0, 2 * SCALE, -3 * SCALE), SCALE);
    assert!(graze.hit(r, T_EPS, T_LIMIT, m).is_none());
    let near = Sphere::new(v(0, 0, -3 * SCALE), SCALE);
    let h = near.hit(r, T_EPS, T_LIMIT, m).expect("must hit");
    assert_eq!(h.t, 2 * SCALE);
}

// From inside the sphere the normal is flipped to oppose the ray.
#[test]
fn sphere_hit_from_inside() {
    let s = Sphere::new(v(0, 0, -3 * SCALE), SCALE);
    let m = Material::Lambertian { albedo: v(SCALE, 0, 0) };
    let r = Ray::new(v(0, 0, -3 * SCALE), v(0, 0, -SCALE));
    let h = s.hit(r, T_EPS, T_LIMIT, m).expect("must hit");
    assert_eq!(h.t, SCALE);
    assert!(!h.front_face);
    assert_eq!(h.normal, v(0, 0, SCALE));
    assert!(dot(r.direction(), h.normal) <= 0);
}

#[test]
fn legacy_hit_sphere_probe() {
    let r = Ray::new(v(0, 0, 0), v(0, 0, -SCALE));
    assert_eq!(hit_sphere(v(0, 0, -3 * SCALE), SCALE, r), 2 * SCALE);
    assert_eq!(hit_sphere(v(0, 3 * SCALE, -3 * SCALE), SCALE, r), -1);
}

// The scene scan reports the nearest surface, wherever it sits in the
// list.
#[test]
fn world_nearest_wins() {
    let m1 = Material::Lambertian { albedo: v(SCALE, 0, 0) };
    let m2 = Material::Lambertian { albedo: v(0, SCALE, 0) };
    let far_then_near = vec![
        Hittable::new(Sphere::new(v(0, 0, -6 * SCALE), SCALE).into_shape(), m1),
        Hittable::new(Sphere::new(v(0, 0, -3 * SCALE), SCALE).into_shape(), m2),
    ];
    let r = Ray::new(v(0, 0, 0), v(0, 0, -SCALE));
    let h = hit_world(&far_then_near, r, T_EPS, T_LIMIT).expect("must hit");
    assert_eq!(h.t, 2 * SCALE);
    assert_eq!(h.material, m2);
    let near_then_far = vec![far_then_near[1], far_then_near[0]];
    let h2 = hit_world(&near_then_far, r, T_EPS, T_LIMIT).expect("must hit");
    assert_eq!(h2.t, 2 * SCALE);
    assert_eq!(h2.material, m2);
    assert!(hit_world(&near_then_far, Ray::new(v(0, 0, 0), v(0, SCALE, 0)), T_EPS, T_LIMIT)
        .is_none());
}

fn unit_hit_record(m: Material) -> HitRecord {
    HitRecord {
        p: v(0, 0, -2 * SCALE),
        normal: v(0, SCALE, 0),
        t: 2 * SCALE,
        front_face: true,
        material: m,
    }
}

// A Lambertian surface always scatters, with its albedo as attenuation.
#[test]
fn lambertian_always_scatters() {
    let albedo = v(SCALE / 2, SCALE / 4, SCALE / 8);
    let m = Material::Lambertian { albedo };
    let rec = unit_hit_record(m);
    let r_in = Ray::new(v(0, SCALE, -2 * SCALE), v(0, -SCALE, 0));
    for _ in 0..32 {
        let sc = m.scatter(r_in, &rec).expect("lambertian must scatter");
        assert_eq!(sc.attenuation, albedo);
        assert_eq!(sc.scattered.origin(), rec.p);
        assert!(sc.scattered.direction().length_squared() >= 1);
    }
}

// Fuzz-free metal at normal incidence is a perfect mirror.
#[test]
fn metal_mirror_at_normal_incidence() {
    let albedo = v(SCALE, SCALE, SCALE);
    let m = Material::Metal { albedo, fuzz: 0 };
    let rec = unit_hit_record(m);
    let r_in = Ray::new(v(0, SCALE, -2 * SCALE), v(0, -SCALE, 0));
    let sc = m.scatter(r_in, &rec).expect("mirror must scatter");
    assert_eq!(sc.attenuation, albedo);
    assert_eq!(sc.scattered.direction(), v(0, SCALE, 0));
}

// A dielectric with a unit refractive index passes light straight through
// and never absorbs; its attenuation is white.
#[test]
fn dielectric_unit_index_straight_through() {
    let m = Material::Dielectric { refractive_index: SCALE };
    let rec = unit_hit_record(m);
    let r_in = Ray::new(v(0, SCALE, -2 * SCALE), v(0, -SCALE, 0));
    let sc = m.scatter(r_in, &rec).expect("dielectric must scatter");
    assert_eq!(sc.attenuation, v(SCALE, SCALE, SCALE));
    assert_eq!(sc.scattered.direction(), v(0, -SCALE, 0));
    assert_eq!(refract(v(0, -SCALE, 0), v(0, SCALE, 0), SCALE), v(0, -SCALE, 0));
}

#[test]
fn schlick_reflectance_values() {
    // Normal incidence with a unit index reflects nothing.
    assert_eq!(reflectance(SCALE, SCALE), 0);
    // Grazing incidence reflects fully.
    assert_eq!(reflectance(0, SCALE), SCALE);
}

// Depth zero is black whatever the scene holds.
#[test]
fn ray_color_depth_zero_is_black() {
    let world = random_scene();
    let r = Ray::new(v(0, 0, 0), v(0, 0, -SCALE));
    assert_eq!(ray_color(r, &world, 0), v(0, 0, 0));
}

// The background endpoints: straight up is sky blue, straight down white,
// and a miss in an empty scene is exactly the gradient.
#[test]
fn background_endpoints() {
    assert_eq!(background_color(v(0, SCALE, 0)), v(32768, 45875, SCALE));
    assert_eq!(background_color(v(0, -SCALE, 0)), v(SCALE, SCALE, SCALE));
    let empty: Vec<Hittable> = vec![];
    let up = Ray::new(v(0, 0, 0), v(0, SCALE, 0));
    assert_eq!(ray_color(up, &empty, 8), v(32768, 45875, SCALE));
    let down = Ray::new(v(0, 0, 0), v(0, -SCALE, 0));
    assert_eq!(ray_color(down, &empty, 8), v(SCALE, SCALE, SCALE));
}

#[test]
fn write_color_quantizes() {
    assert_eq!(write_color(v(SCALE, SCALE / 4, 0), 1), (255, 128, 0));
    // Four samples of full white average back to full white.
    assert_eq!(write_color(v(4 * SCALE, 4 * SCALE, 4 * SCALE), 4), (255, 255, 255));
}

fn pinhole_camera() -> Camera {
    Camera::new(
        v(0, 0, 2 * SCALE),
        v(0, 0, 0),
        v(0, SCALE, 0),
        SCALE,
        SCALE,
        0,
        SCALE,
    )
}

// With a zero aperture the camera is a deterministic pinhole.
#[test]
fn pinhole_rays_are_deterministic() {
    let cam = pinhole_camera();
    assert_eq!(cam.lens_radius, 0);
    let r1 = cam.get_ray(0, 0);
    let r2 = cam.get_ray(0, 0);
    assert_eq!(r1, r2);
    assert_eq!(r1.origin(), v(0, 0, 2 * SCALE));
    assert_eq!(r1.direction(), v(-SCALE, -SCALE, -SCALE));
    let centered = cam.get_ray(SCALE / 2, SCALE / 2);
    assert_eq!(centered.direction(), v(0, 0, -SCALE));
}

// End to end: over a lone ground sphere, a pixel whose primary ray leaves
// the ground behind shows exactly the background gradient.
#[test]
fn ground_scene_top_rows_are_background() {
    let ground = vec![Hittable::new(
        Sphere::new(v(0, -65601536, 0), 65536000).into_shape(),
        Material::Lambertian { albedo: v(32768, 32768, 32768) },
    )];
    let cam = pinhole_camera();
    // Top-row pixel: the jitter-free primary ray points upward and misses.
    let up_sample = sample_pixel(&cam, &ground, 0, 3, 4, 4, 0, 0, 1);
    let up_ray = cam.get_ray(0, SCALE);
    assert!(hit_world(&ground, up_ray, T_EPS, T_LIMIT).is_none());
    assert_eq!(up_sample, background_color(up_ray.direction()));
    // A straight-down ray from the same camera does hit the ground.
    let down_ray = Ray::new(v(0, 0, 2 * SCALE), v(0, -SCALE, 0));
    assert!(hit_world(&ground, down_ray, T_EPS, T_LIMIT).is_some());
}

#[test]
fn render_produces_full_buffer() {
    let world = vec![Hittable::new(
        Sphere::new(v(0, 0, -3 * SCALE), SCALE).into_shape(),
        Material::Lambertian { albedo: v(32768, 32768, 32768) },
    )];
    let cam = pinhole_camera();
    let pixels = render(&cam, &world, 4, 3, 2, 4);
    assert_eq!(pixels.len(), 12);
    // Depth zero renders quantized black everywhere.
    let black = render_pixel(&cam, &world, 1, 1, 4, 3, 3, 0);
    assert_eq!(black, (0, 0, 0));
}

// The random draws stay inside their stated ranges; a one-wide range pins
// the draw exactly, so a wrapper returning its argument would fail.
#[test]
fn random_draws_in_range() {
    assert_eq!(random_scalar_range(5, 6), 5);
    assert_eq!(random_scalar_range(-7, -6), -7);
    for _ in 0..200 {
        let x = random_scalar();
        assert!((0..SCALE).contains(&x));
        let y = random_scalar_range(-3, 11);
        assert!((-3..11).contains(&y));
        let p = path_tracer::vec3::random_in_unit_sphere();
        let ls = p.length_squared();
        assert!(ls >= 1 && ls < SCALE);
        let d = path_tracer::vec3::random_in_unit_disk();
        assert_eq!(d.z(), 0);
        assert!(d.length_squared() < SCALE);
        let u = path_tracer::vec3::random_unit_vector();
        assert!(u.x().abs() <= 0x4_0000);
    }
}

// The showcase scene: ground first, the three feature spheres last, small
// spheres in between, and every primary probe behaves.
#[test]
fn random_scene_shape() {
    let world = random_scene();
    assert!(world.len() >= 4);
    let Shape::Sphere(ground) = world[0].shape;
    assert_eq!(ground.radius, 65536000);
    assert_eq!(ground.center, v(0, -65536000, 0));
    let Shape::Sphere(last) = world[world.len() - 1].shape;
    assert_eq!(last.center, v(262144, SCALE, 0));
    match world[world.len() - 1].material {
        Material::Metal { fuzz, .. } => assert_eq!(fuzz, 0),
        _ => panic!("last entry must be the metal sphere"),
    }
    for k in 1..world.len() - 3 {
        let Shape::Sphere(sp) = world[k].shape;
        assert_eq!(sp.radius, 13107);
    }
}

// The remaining vector helpers: reciprocal-multiply division, in-place
// scaling and direct per-component division, and indexing.
#[test]
fn vector_helpers() {
    let a = v(4 * SCALE, -2 * SCALE, SCALE);
    assert_eq!(a.div(2 * SCALE), v(2 * SCALE, -SCALE, SCALE / 2));
    let mut b = v(SCALE, -SCALE, 3);
    b.mul_assign(2 * SCALE);
    assert_eq!(b, v(2 * SCALE, -2 * SCALE, 6));
    let mut c = v(3 * SCALE, -3 * SCALE, 1);
    c.div_assign(3 * SCALE);
    assert_eq!(c, v(SCALE, -SCALE, 0));
    assert_eq!(a.index(0), 4 * SCALE);
    assert_eq!(a.index(1), -2 * SCALE);
    assert_eq!(a.index(2), SCALE);
}

// A fuzz-free metal absorbs a ray that arrives from behind the surface:
// the mirrored direction leaves the lower half-space.
#[test]
fn metal_absorbs_from_behind() {
    let m = Material::Metal { albedo: v(SCALE, SCALE, SCALE), fuzz: 0 };
    let rec = unit_hit_record(m);
    let r_in = Ray::new(v(0, -SCALE, -2 * SCALE), v(0, SCALE, 0));
    assert!(m.scatter(r_in, &rec).is_none());
}

// The camera's executable configuration check accepts the demo setups and
// rejects a degenerate one.
#[test]
fn camera_config_check() {
    assert!(path_tracer::camera::camera_config_ok(
        v(0, 0, 2 * SCALE),
        v(0, 0, 0),
        v(0, SCALE, 0),
        SCALE,
        SCALE,
        0,
        SCALE,
    ));
    // Looking at itself: rejected.
    assert!(!path_tracer::camera::camera_config_ok(
        v(0, 0, 2 * SCALE),
        v(0, 0, 2 * SCALE),
        v(0, SCALE, 0),
        SCALE,
        SCALE,
        0,
        SCALE,
    ));
    // An up vector parallel to the view direction: rejected.
    assert!(!path_tracer::camera::camera_config_ok(
        v(0, 0, 2 * SCALE),
        v(0, 0, 0),
        v(0, 0, SCALE),
        SCALE,
        SCALE,
        0,
        SCALE,
    ));
}

// The scene never exceeds one entry per grid cell plus the four fixed
// spheres.
#[test]
fn random_scene_size_cap() {
    for _ in 0..4 {
        let world = random_scene();
        assert!(world.len() >= 4 && world.len() <= 488);
    }
}
