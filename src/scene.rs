//! The demonstration scene: a checkered floor, four large balls and thirty
//! small metal ones scattered at random.
use crate::fixed::FixedI32;
use crate::hittable::{material_in, Hittable, HittableList, Plane, Sphere};
use crate::material::{CheckeredLambertian, Lambertian, Material, Metal};
use crate::vec3::{Vec3, Vec3FI32};
use crate::rng::Rng;
use vstd::prelude::*;

verus! {

/// How many small metal balls the scene holds.
pub const SMALL_BALLS: usize = 30;

/// Index of the fuzzy metal material that the small balls share.
pub const SMALL_BALL_MATERIAL: usize = 4;

fn raw(value: i32) -> (r: FixedI32)
    ensures
        r.value == value,
{
    FixedI32 { value }
}

fn color(r: i32, g: i32, b: i32) -> (c: Vec3FI32)
    ensures
        c == (Vec3 { x: FixedI32 { value: r }, y: FixedI32 { value: g }, z: FixedI32 { value: b } }),
{
    Vec3::new(raw(r), raw(g), raw(b))
}

/// Builds the scene: the floor (object 0), four balls of radius 2 (objects 1
/// to 4), then thirty balls of radius 1 resting on the floor at random
/// positions with both horizontal coordinates in `[-15, 15)`.
pub fn gen_scene(rand: &mut Rng) -> (r: HittableList)
    ensures
        r.wf(),
        r.objects@.len() == 5 + SMALL_BALLS,
        r.materials@.len() == 6,
        forall|k: int|
            5 <= k < r.objects@.len() ==> match #[trigger] r.objects@[k] {
                Hittable::Sphere(s) => {
                    &&& s.radius.value == 65536
                    &&& s.center.y.value == 0
                    &&& -983040 <= s.center.x.value < 983040
                    &&& -983040 <= s.center.z.value < 983040
                    &&& s.material == Some(SMALL_BALL_MATERIAL)
                },
                Hittable::Plane(_) => false,
            },
{
    let ground_material = Material::Checkered(
        CheckeredLambertian::new(color(62259, 62259, 13107), color(13107, 13107, 62259)),
    );
    let red_ball_mat = Material::Lambertian(Lambertian::new(color(62259, 13107, 13107)));
    let green_ball_mat = Material::Lambertian(Lambertian::new(color(13107, 62259, 13107)));
    let blue_ball_mat = Material::Lambertian(Lambertian::new(color(13107, 13107, 62259)));
    let metal_ball_mat = Material::Metal(Metal::new(raw(32768), color(45875, 45875, 45875)));
    let mirror_ball_mat = Material::Metal(Metal::new(raw(6553), color(45875, 45875, 45875)));
    let materials = vec![
        ground_material,
        red_ball_mat,
        green_ball_mat,
        blue_ball_mat,
        metal_ball_mat,
        mirror_ball_mat,
    ];

    let zero = raw(0);
    let one = raw(65536);
    let two = raw(131072);
    let v = Vec3::new(zero, zero, one);
    let u = Vec3::new(one, zero, zero);
    assert(crate::matrix::det_of(crate::hittable::basis_of(v, u, v.spec_cross(u))).value == 65536);
    let floor = Plane::new(Vec3::new(zero, raw(-65536), zero), v, u, Some(0));

    let mut world_vec: Vec<Hittable> = vec![
        Hittable::Plane(floor),
        Hittable::Sphere(Sphere::new(color(131072, 131072, -131072), two, Some(1))),
        Hittable::Sphere(Sphere::new(color(262144, 131072, 131072), two, Some(2))),
        Hittable::Sphere(Sphere::new(color(393216, 131072, -131072), two, Some(3))),
        Hittable::Sphere(Sphere::new(color(-98304, 131072, -131072), two, Some(5))),
    ];
    let mut k: usize = 0;
    while k < SMALL_BALLS
        invariant
            k <= SMALL_BALLS,
            world_vec@.len() == 5 + k,
            zero.value == 0,
            one.value == 65536,
            forall|i: int|
                0 <= i < world_vec@.len() ==> #[trigger] world_vec@[i].wf() && material_in(
                    world_vec@[i].material(),
                    6,
                ),
            forall|i: int|
                5 <= i < world_vec@.len() ==> match #[trigger] world_vec@[i] {
                    Hittable::Sphere(s) => {
                        &&& s.radius.value == 65536
                        &&& s.center.y.value == 0
                        &&& -983040 <= s.center.x.value < 983040
                        &&& -983040 <= s.center.z.value < 983040
                        &&& s.material == Some(SMALL_BALL_MATERIAL)
                    },
                    Hittable::Plane(_) => false,
                },
        decreases SMALL_BALLS - k,
    {
        let x = FixedI32::rand(rand) * 30 - FixedI32::new(15);
        let z = FixedI32::rand(rand) * 30 - FixedI32::new(15);
        let ball = Sphere::new(Vec3::new(x, zero, z), one, Some(SMALL_BALL_MATERIAL));
        world_vec.push(Hittable::Sphere(ball));
        k = k + 1;
    }
    HittableList::new(world_vec, materials)
}

} // verus!
