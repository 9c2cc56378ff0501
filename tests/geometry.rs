use nspray::fixed::FixedI32;
use nspray::hittable::{HitRecord, Hittable, HittableList, Plane, Sphere};
use nspray::material::{Lambertian, Material};
use nspray::matrix::Matrix3x3;
use nspray::ray::Ray;
use nspray::vec3::{Vec3, Vec3FI32};

fn fx(v: i32) -> FixedI32 {
    FixedI32::new(v)
}

fn v3(x: i32, y: i32, z: i32) -> Vec3FI32 {
    Vec3::new(fx(x), fx(y), fx(z))
}

#[test]
fn vector_algebra() {
    let a = v3(1, 2, 3);
    let b = v3(4, -5, 6);
    assert_eq!(a.dot(b), fx(4 - 10 + 18));
    assert_eq!(a.mag_squared(), fx(14));
    assert_eq!(a.cross(b), v3(2 * 6 - 3 * -5, 3 * 4 - 1 * 6, 1 * -5 - 2 * 4));
    assert_eq!(a + b, v3(5, -3, 9));
    assert_eq!(a - b, v3(-3, 7, -3));
    assert_eq!(a * b, v3(4, -10, 18));
    assert_eq!(a * fx(2), v3(2, 4, 6));
    assert_eq!(a + fx(1), v3(2, 3, 4));
    assert_eq!(a - fx(1), v3(0, 1, 2));
    assert_eq!(v3(4, 8, 12) / fx(4), v3(1, 2, 3));
    assert_eq!(v3(4, 8, 12) / v3(2, 4, 3), v3(2, 2, 4));
    assert_eq!(Vec3FI32::from(fx(7)), v3(7, 7, 7));
}

#[test]
fn magnitude_and_normalization() {
    let v = v3(0, 3, 4);
    let m = v.mag().value;
    assert!((m - 5 * 65536).abs() < 100, "{}", m);
    let u = v.unit_vector();
    assert!((u.y.value - 39322).abs() < 100, "{:?}", u);
    assert!((u.z.value - 52429).abs() < 100, "{:?}", u);
    assert_eq!(u.x.value, 0);
}

#[test]
fn near_zero_threshold() {
    let tiny = Vec3::new(FixedI32 { value: 64 }, FixedI32 { value: -64 }, FixedI32 { value: 0 });
    assert!(tiny.near_zero());
    let not_tiny = Vec3::new(FixedI32 { value: 65 }, FixedI32 { value: 0 }, FixedI32 { value: 0 });
    assert!(!not_tiny.near_zero());
}

#[test]
fn unit_ball_samples() {
    let mut rng = nspray::rng::Rng::new(3);
    for _ in 0..50 {
        let v = Vec3FI32::random_in_unit_sphere(&mut rng);
        assert!(v.mag_squared().value <= 65536);
        for c in [v.x, v.y, v.z] {
            assert!((0..65536).contains(&c.value));
        }
        let d = Vec3FI32::random_in_unit_disk(&mut rng);
        assert_eq!(d.z.value, 0);
        assert!(d.mag_squared().value <= 65536);
    }
}

#[test]
fn matrix_determinant_inverse_and_product() {
    let m = Matrix3x3::new([fx(2), fx(0), fx(0), fx(0), fx(4), fx(0), fx(0), fx(0), fx(8)]);
    assert_eq!(m.det(), fx(64));
    let inv = m.invert();
    assert_eq!(inv.state[0].value, 32768);
    assert_eq!(inv.state[4].value, 16384);
    assert_eq!(inv.state[8].value, 8192);
    assert_eq!(inv.state[1].value, 0);
    assert_eq!(m * v3(1, 2, 3), v3(2, 8, 24));
    let swap = Matrix3x3::new([fx(0), fx(1), fx(0), fx(1), fx(0), fx(0), fx(0), fx(0), fx(1)]);
    assert_eq!(swap.det(), fx(-1));
    assert_eq!(swap.invert() * v3(5, 6, 7), v3(6, 5, 7));
    assert_eq!(m.div(fx(2)).state[8], fx(4));
}

#[test]
fn ray_at() {
    let r = Ray::new(v3(1, 2, 3), v3(0, 0, -2));
    assert_eq!(r.at(fx(3)), v3(1, 2, -3));
    assert_eq!(r.origin(), v3(1, 2, 3));
    assert_eq!(r.dir(), v3(0, 0, -2));
}

#[test]
fn sphere_hit_from_outside_towards_center() {
    let sphere = Sphere::new(v3(0, 0, -5), fx(1), Some(0));
    let ray = Ray::new(v3(0, 0, 0), v3(0, 0, -1));
    let mut rec = HitRecord::default();
    assert!(sphere.hit(&ray, &mut rec, FixedI32 { value: 65 }, fx(100)));
    assert!(rec.t.value > 0);
    assert!((rec.t.value - 4 * 65536).abs() < 100, "{:?}", rec.t);
    assert!(rec.front);
    assert!(rec.normal.z.value > 65000, "{:?}", rec.normal);
    assert_eq!(rec.material, Some(0));
    assert!(rec.mapped_point.is_none());
}

#[test]
fn sphere_missed_ray_leaves_record() {
    let sphere = Sphere::new(v3(0, 0, -5), fx(1), None);
    let ray = Ray::new(v3(0, 0, 0), v3(0, 1, 0));
    let mut rec = HitRecord::default();
    rec.t = fx(9);
    assert!(!sphere.hit(&ray, &mut rec, FixedI32 { value: 65 }, fx(100)));
    assert_eq!(rec.t, fx(9));
    let behind = Ray::new(v3(0, 0, 0), v3(0, 0, 1));
    assert!(!sphere.hit(&behind, &mut rec, FixedI32 { value: 65 }, fx(100)));
}

#[test]
fn sphere_hit_from_inside_faces_inward() {
    let sphere = Sphere::new(v3(0, 0, 0), fx(2), None);
    let ray = Ray::new(v3(0, 0, 0), v3(1, 0, 0));
    let mut rec = HitRecord::default();
    assert!(sphere.hit(&ray, &mut rec, FixedI32 { value: 65 }, fx(100)));
    assert!((rec.t.value - 2 * 65536).abs() < 100);
    assert!(!rec.front);
    assert!(rec.normal.x.value < -65000);
}

fn floor_plane() -> Plane {
    Plane::new(v3(0, -1, 0), v3(0, 0, 1), v3(1, 0, 0), Some(1))
}

#[test]
fn plane_hit_maps_point() {
    let plane = floor_plane();
    assert_eq!(plane.normal, v3(0, 1, 0));
    let ray = Ray::new(v3(3, 1, 2), v3(0, -1, 0));
    let mut rec = HitRecord::default();
    assert!(plane.hit(&ray, &mut rec, FixedI32 { value: 65 }, fx(100)));
    assert_eq!(rec.t, fx(2));
    assert_eq!(rec.point, v3(3, -1, 2));
    assert_eq!(rec.mapped_point, Some(v3(2, 3, 0)));
    assert!(rec.front);
    assert_eq!(rec.material, Some(1));
}

#[test]
fn parallel_ray_misses_plane() {
    let plane = floor_plane();
    let mut rec = HitRecord::default();
    for origin in [v3(0, 5, 0), v3(0, -1, 0), v3(10, -20, 3)] {
        let ray = Ray::new(origin, v3(1, 0, 1));
        assert!(!plane.hit(&ray, &mut rec, FixedI32 { value: 65 }, fx(100)));
        let nearly = Ray::new(origin, Vec3::new(fx(1), FixedI32 { value: 600 }, fx(0)));
        assert!(!plane.hit(&nearly, &mut rec, FixedI32 { value: 65 }, fx(100)));
    }
    assert_eq!(rec.t.value, 0);
}

#[test]
fn scene_keeps_nearest_hit() {
    let near = Hittable::Sphere(Sphere::new(v3(0, 0, -3), fx(1), Some(0)));
    let far = Hittable::Sphere(Sphere::new(v3(0, 0, -10), fx(1), Some(1)));
    let gray = Material::Lambertian(Lambertian::new(v3(0, 0, 0)));
    let list = HittableList::new(vec![far, near], vec![gray, gray]);
    let ray = Ray::new(v3(0, 0, 0), v3(0, 0, -1));
    let mut rec = HitRecord::default();
    assert!(list.hit(&ray, &mut rec, FixedI32 { value: 65 }, fx(100)));
    assert_eq!(rec.material, Some(0));
    assert!((rec.t.value - 2 * 65536).abs() < 100);
    let up = Ray::new(v3(0, 0, 0), v3(0, 1, 0));
    let mut rec2 = HitRecord::default();
    assert!(!list.hit(&up, &mut rec2, FixedI32 { value: 65 }, fx(100)));
    assert!(rec2.material.is_none());
}

#[test]
fn face_normal_turns_towards_ray() {
    let mut rec = HitRecord::default();
    let ray = Ray::new(v3(0, 0, 0), v3(0, 0, -1));
    rec.set_face_normal(&ray, v3(0, 0, 1));
    assert!(rec.front);
    assert_eq!(rec.normal, v3(0, 0, 1));
    rec.set_face_normal(&ray, v3(0, 0, -1));
    assert!(!rec.front);
    assert_eq!(rec.normal, v3(0, 0, 1));
}
