//! The showcase scene: a large ground sphere, a grid of small spheres with
//! randomly drawn materials, and three large feature spheres.

use crate::fixed::{fmul, fmul_s, lemma_fmul_mono, lemma_fmul_one, SCALE};
use crate::hittable::{Hittable, Shape};
use crate::material::{material_wf, Material};
use crate::scene::world_wf;
use crate::sphere::Sphere;
use crate::util::{random_scalar, random_scalar_range};
use crate::vec3::{comp_mul_s, len_s, sub_s, Color, Point3, Vec3};
use vstd::prelude::*;

verus! {

/// Radius of every small grid sphere: one fifth.
pub const SMALL_RADIUS: i64 = 13107;

/// The radius a scene entry's sphere was built with.
pub open spec fn entry_radius(h: Hittable) -> int {
    match h.shape {
        Shape::Sphere(sp) => sp.radius as int,
    }
}

/// The fixed ground entry: a huge matte sphere far below the origin.
pub open spec fn ground_entry() -> Hittable {
    Hittable {
        shape: Shape::Sphere(
            Sphere { center: Point3 { x: 0, y: -65536000i64, z: 0 }, radius: 65536000 },
        ),
        material: Material::Lambertian { albedo: Color { x: 32768, y: 32768, z: 32768 } },
    }
}

/// The center a grid cell's draws produce: `(a + 0.9*x1, 0.2, b + 0.9*x2)`
/// for grid integers `a`, `b` and unit draws `x1`, `x2`.
pub open spec fn grid_center(aa: int, bb: int, x1: int, x2: int) -> Point3 {
    Point3 {
        x: (aa * SCALE + fmul_s(58982, x1)) as i64,
        y: 13107,
        z: (bb * SCALE + fmul_s(58982, x2)) as i64,
    }
}

/// A grid sphere keeps more than 0.9 clear of the metal feature sphere's
/// spot at (4, 0.2, 0).
pub open spec fn grid_clearance_ok(c: Point3) -> bool {
    len_s(sub_s(c, Point3 { x: 262144, y: 13107, z: 0 })) > 58982
}

/// A drawn grid material: matte with an albedo that is the product of two
/// unit draws, metal with an albedo in [0.5, 1) and fuzz in [0, 0.5), or
/// glass at refractive index 1.5.
pub open spec fn grid_material(m: Material) -> bool {
    match m {
        Material::Lambertian { albedo } => exists|r1: Vec3, r2: Vec3|
            0 <= r1.x < SCALE && 0 <= r1.y < SCALE && 0 <= r1.z < SCALE && 0 <= r2.x < SCALE && 0
                <= r2.y < SCALE && 0 <= r2.z < SCALE && albedo == #[trigger] comp_mul_s(r1, r2),
        Material::Metal { albedo, fuzz } => 32768 <= albedo.x < SCALE && 32768 <= albedo.y < SCALE
            && 32768 <= albedo.z < SCALE && 0 <= fuzz < 32768,
        Material::Dielectric { refractive_index } => refractive_index == 98304,
    }
}

/// One grid entry: a small sphere at a drawn center for some grid cell
/// `-11 <= a, b < 11`, clear of the metal sphere's spot, carrying a drawn
/// material.
pub open spec fn grid_entry(h: Hittable) -> bool {
    exists|aa: int, bb: int, x1: int, x2: int|
        -11 <= aa < 11 && -11 <= bb < 11 && 0 <= x1 < SCALE && 0 <= x2 < SCALE && h.shape
            == Shape::Sphere(
            Sphere { center: #[trigger] grid_center(aa, bb, x1, x2), radius: SMALL_RADIUS },
        ) && grid_clearance_ok(grid_center(aa, bb, x1, x2)) && grid_material(h.material)
}

/// Scatters a grid of small spheres with randomly chosen materials around
/// three fixed large ones on a matte ground.
///
/// The material draw mirrors the reference proportions: matte below 0.8,
/// metal below 0.95, glass above. The first entry is the ground, the last
/// three are the fixed glass, matte and metal spheres, and everything in
/// between is a grid entry: at most one per cell of the 22-by-22 grid, so
/// never more than 488 entries in all.
pub fn random_scene() -> (world: Vec<Hittable>)
    ensures
        world_wf(world@),
        4 <= world@.len() <= 488,
        world@[0] == ground_entry(),
        forall|k: int| 1 <= k < world@.len() - 3 ==> grid_entry(#[trigger] world@[k]),
        forall|k: int|
            1 <= k < world@.len() - 3 ==> entry_radius(#[trigger] world@[k]) == SMALL_RADIUS,
        world@[world@.len() - 3] == (Hittable {
            shape: Shape::Sphere(
                Sphere { center: Point3 { x: 0, y: SCALE, z: 0 }, radius: SCALE },
            ),
            material: Material::Dielectric { refractive_index: 98304 },
        }),
        world@[world@.len() - 2] == (Hittable {
            shape: Shape::Sphere(
                Sphere { center: Point3 { x: -262144i64, y: SCALE, z: 0 }, radius: SCALE },
            ),
            material: Material::Lambertian {
                albedo: Color { x: 26214, y: 13107, z: 6553 },
            },
        }),
        world@[world@.len() - 1] == (Hittable {
            shape: Shape::Sphere(
                Sphere { center: Point3 { x: 262144, y: SCALE, z: 0 }, radius: SCALE },
            ),
            material: Material::Metal {
                albedo: Color { x: 45875, y: 39321, z: 32768 },
                fuzz: 0,
            },
        }),
{
    let mut world: Vec<Hittable> = Vec::new();
    let ground_material: Material = Material::Lambertian {
        albedo: Vec3::new(32768, 32768, 32768),
    };
    world.push(
        Hittable::new(
            Sphere::new(Vec3::new(0, -65536000, 0), 65536000).into_shape(),
            ground_material,
        ),
    );
    let mut a: i64 = -11;
    while a < 11
        invariant
            world_wf(world@),
            1 <= world@.len() <= 1 + (a + 11) * 22,
            world@[0] == ground_entry(),
            forall|k: int| 1 <= k < world@.len() ==> grid_entry(#[trigger] world@[k]),
            forall|k: int|
                1 <= k < world@.len() ==> entry_radius(#[trigger] world@[k]) == SMALL_RADIUS,
            -11 <= a <= 11,
        decreases 11 - a,
    {
        let mut b: i64 = -11;
        while b < 11
            invariant
                world_wf(world@),
                1 <= world@.len() <= 1 + (a + 11) * 22 + (b + 11),
                world@[0] == ground_entry(),
                forall|k: int| 1 <= k < world@.len() ==> grid_entry(#[trigger] world@[k]),
                forall|k: int|
                    1 <= k < world@.len() ==> entry_radius(#[trigger] world@[k]) == SMALL_RADIUS,
                -11 <= a < 11,
                -11 <= b <= 11,
            decreases 11 - b,
        {
            let choose_mat: i64 = random_scalar();
            let x1: i64 = random_scalar();
            let x2: i64 = random_scalar();
            let center: Point3 = Vec3::new(
                a * SCALE + fmul(58982, x1),
                13107,
                b * SCALE + fmul(58982, x2),
            );
            proof {
                assert(center == grid_center(a as int, b as int, x1 as int, x2 as int));
            }
            let clearance: i64 = center.sub(Vec3::new(262144, 13107, 0)).length();
            if clearance > 58982 {
                if choose_mat < 52429 {
                    let r1: Vec3 = Vec3::random();
                    let r2: Vec3 = Vec3::random();
                    proof {
                        lemma_fmul_mono(r1.x as int, r2.x as int, SCALE as int);
                        lemma_fmul_mono(r1.y as int, r2.y as int, SCALE as int);
                        lemma_fmul_mono(r1.z as int, r2.z as int, SCALE as int);
                        lemma_fmul_one(r1.x as int);
                        lemma_fmul_one(r1.y as int);
                        lemma_fmul_one(r1.z as int);
                    }
                    let albedo: Color = r1.comp_mul(r2);
                    let entry: Hittable = Hittable::new(
                        Sphere::new(center, SMALL_RADIUS).into_shape(),
                        Material::Lambertian { albedo },
                    );
                    proof {
                        assert(albedo == comp_mul_s(r1, r2));
                        assert(grid_material(entry.material));
                        assert(grid_entry(entry));
                    }
                    world.push(entry);
                } else if choose_mat < 62259 {
                    let albedo: Color = Vec3::random_range(32768, SCALE);
                    let fuzz: i64 = random_scalar_range(0, 32768);
                    let entry: Hittable = Hittable::new(
                        Sphere::new(center, SMALL_RADIUS).into_shape(),
                        Material::Metal { albedo, fuzz },
                    );
                    proof {
                        assert(grid_entry(entry));
                    }
                    world.push(entry);
                } else {
                    let entry: Hittable = Hittable::new(
                        Sphere::new(center, SMALL_RADIUS).into_shape(),
                        Material::Dielectric { refractive_index: 98304 },
                    );
                    proof {
                        assert(grid_entry(entry));
                    }
                    world.push(entry);
                }
            }
            b = b + 1;
        }
        a = a + 1;
    }
    world.push(
        Hittable::new(
            Sphere::new(Vec3::new(0, SCALE, 0), SCALE).into_shape(),
            Material::Dielectric { refractive_index: 98304 },
        ),
    );
    world.push(
        Hittable::new(
            Sphere::new(Vec3::new(-262144, SCALE, 0), SCALE).into_shape(),
            Material::Lambertian { albedo: Vec3::new(26214, 13107, 6553) },
        ),
    );
    world.push(
        Hittable::new(
            Sphere::new(Vec3::new(262144, SCALE, 0), SCALE).into_shape(),
            Material::Metal { albedo: Vec3::new(45875, 39321, 32768), fuzz: 0 },
        ),
    );
    world
}

} // verus!
