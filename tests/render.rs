use nspray::camera::Camera;
use nspray::caster::{reports_progress, shade, Renderer};
use nspray::fixed::FixedI32;
use nspray::hittable::{HitRecord, Hittable, HittableList, Sphere};
use nspray::material::{reflect, CheckeredLambertian, Lambertian, Material, Metal};
use nspray::ray::Ray;
use nspray::vec3::{Vec3, Vec3FI32};
use nspray::rng::Rng;

fn fx(v: i32) -> FixedI32 {
    FixedI32::new(v)
}

fn v3(x: i32, y: i32, z: i32) -> Vec3FI32 {
    Vec3::new(fx(x), fx(y), fx(z))
}

fn half() -> FixedI32 {
    FixedI32 { value: 32768 }
}

fn record_at(point: Vec3FI32, normal: Vec3FI32, mapped: Option<Vec3FI32>) -> HitRecord {
    HitRecord { point, mapped_point: mapped, normal, t: fx(1), front: true, material: Some(0) }
}

#[test]
fn reflect_mirrors_about_normal() {
    assert_eq!(reflect(v3(1, -1, 0), v3(0, 1, 0)), v3(1, 1, 0));
}

#[test]
fn lambertian_scatters_around_normal() {
    let m = Lambertian::new(Vec3::new(half(), half(), half()));
    let rec = record_at(v3(0, 1, 0), v3(0, 1, 0), None);
    let sample = Vec3::new(half(), FixedI32 { value: 0 }, FixedI32 { value: 0 });
    let (ray, att) = m.scatter_with(&rec, sample).unwrap();
    assert_eq!(ray.origin, v3(0, 1, 0));
    assert_eq!(ray.dir, Vec3::new(half(), fx(1), fx(0)));
    assert_eq!(att, Vec3::new(half(), half(), half()));
    let cancel = Vec3::new(fx(0), fx(-1), fx(0));
    let (ray, _) = m.scatter_with(&rec, cancel).unwrap();
    assert_eq!(ray.dir, v3(0, 1, 0));
    let mut rng = Rng::new(5);
    let (ray, att) = m.scatter(&mut rng, &rec).unwrap();
    assert!(ray.dir.y.value >= 65536);
    assert_eq!(att, Vec3::new(half(), half(), half()));
}

#[test]
fn checkered_albedo_follows_squares() {
    let a = v3(1, 0, 0);
    let b = v3(0, 0, 1);
    let m = CheckeredLambertian::new(a, b);
    let zero = Vec3::new(fx(0), fx(0), fx(0));
    let at = |x: i32, y: i32| {
        let p = Vec3::new(FixedI32 { value: x }, FixedI32 { value: y }, fx(0));
        m.scatter_with(&record_at(v3(0, 0, 0), v3(0, 1, 0), Some(p)), zero).unwrap().1
    };
    assert_eq!(at(98304, 32768), b);
    assert_eq!(at(32768, 98304), b);
    assert_eq!(at(32768, 32768), a);
    assert_eq!(at(98304, 98304), a);
    assert_eq!(at(-98304, 32768), a);
    assert_eq!(at(-32768, 32768), b);
    assert_eq!(at(65536, 32768), b);
    assert_eq!(at(65536, 65536), a);
    let none = m.scatter_with(&record_at(v3(0, 0, 0), v3(0, 1, 0), None), zero).unwrap().1;
    assert_eq!(none, a);
}

#[test]
fn metal_reflects_or_absorbs() {
    let m = Metal::new(fx(0), v3(1, 1, 1));
    let rec = record_at(v3(0, 0, 0), v3(0, 1, 0), None);
    let zero = v3(0, 0, 0);
    let incoming = Ray::new(v3(-1, 1, 0), v3(0, -2, 0));
    let (out, att) = m.scatter_with(&incoming, &rec, zero).unwrap();
    assert_eq!(att, v3(1, 1, 1));
    assert!(out.dir.y.value > 65000, "{:?}", out.dir);
    let grazing_fuzz = Metal::new(fx(4), v3(1, 1, 1));
    let down = Vec3::new(fx(0), FixedI32 { value: -60000 }, fx(0));
    let inward = Ray::new(v3(0, 1, 0), v3(0, -1, 0));
    assert!(grazing_fuzz.scatter_with(&inward, &rec, down).is_none());
    let stalled = Ray::new(v3(0, 1, 0), v3(0, 0, 0));
    assert!(m.scatter_with(&stalled, &rec, zero).is_none());
    let any = Material::Metal(m);
    assert!(any.scatter_with(&incoming, &rec, zero).is_some());
}

fn straight_camera(aspect: FixedI32) -> Camera {
    Camera::new(v3(0, 0, 0), v3(0, 0, -1), v3(0, 1, 0), fx(90), aspect, fx(0), fx(1))
}

#[test]
fn camera_centre_ray_points_ahead() {
    let cam = straight_camera(fx(1));
    let r = cam.get_ray_noblur(half(), half());
    assert_eq!(r.origin, v3(0, 0, 0));
    assert!(r.dir.x.value.abs() < 200, "{:?}", r.dir);
    assert!(r.dir.y.value.abs() < 200, "{:?}", r.dir);
    assert!((r.dir.z.value + 65536).abs() < 200, "{:?}", r.dir);
    let corner = cam.get_ray_noblur(fx(0), fx(0));
    assert!(corner.dir.x.value < -60000 && corner.dir.y.value > 60000, "{:?}", corner.dir);
    let mut rng = Rng::new(9);
    let blurred = cam.get_ray_blur(&mut rng, half(), half());
    assert_eq!(blurred.origin, v3(0, 0, 0));
}

#[test]
fn shade_packs_channels() {
    assert_eq!(shade(v3(1, 1, 1), 1), (0x7fff, 255, 255, 255));
    assert_eq!(shade(v3(2, 0, 2), 2), (31 * 1024 + 31, 255, 7, 255));
    assert_eq!(shade(v3(0, 0, 0), 1).0 & 0x7fff, shade(v3(0, 0, 0), 1).0);
    let quarter = Vec3::new(FixedI32 { value: 16384 }, fx(0), fx(0));
    let (packed, r, g, b) = shade(quarter, 1);
    assert_eq!(packed >> 10, 15);
    assert_eq!((r, g, b), (127, 7, 7));
}

#[test]
fn progress_every_ten_rows() {
    assert!(reports_progress(0));
    assert!(reports_progress(10));
    assert!(reports_progress(230));
    assert!(!reports_progress(5));
}

fn one_sphere_renderer(albedo: Vec3FI32, samples: u16, size: u16) -> Renderer {
    let sphere = Hittable::Sphere(Sphere::new(v3(0, 0, -3), fx(1), Some(0)));
    let scene = HittableList::new(vec![sphere], vec![Material::Lambertian(Lambertian::new(albedo))]);
    Renderer::new(straight_camera(fx(1)), scene, size, size, samples)
}

#[test]
fn centre_pixel_is_sky_through_sphere_albedo() {
    let red_half = Vec3::new(half(), fx(0), fx(0));
    let renderer = one_sphere_renderer(red_half, 1, 9);
    let mut rng = Rng::new(1);
    let (packed, r, g, b) = renderer.render_pixel(&mut rng, 4, 4);
    // Green and blue are black: the square root of zero after five Newton steps is 1/32.
    let black = shade(v3(0, 0, 0), 1);
    assert_eq!((g, b), (black.2, black.3));
    assert_eq!(packed & 0x3ff, 0);
    assert!(r > black.1 && r <= 181, "{}", r);
    let mut rng = Rng::new(1);
    let mut ray = Ray::new(v3(0, 0, 0), v3(0, 0, -1));
    ray.dir.z = fx(-1);
    let c = renderer.ray_color(&ray, &mut rng, 1);
    assert_eq!(c, v3(0, 0, 0));
}

#[test]
fn sky_only_frame() {
    let scene = HittableList::new(vec![], vec![]);
    let renderer = Renderer::new(straight_camera(fx(1)), scene, 4, 4, 2);
    let mut screen = vec![0u16; 16];
    let mut rgb = vec![0u8; 48];
    renderer.render_scene(&mut screen, &mut rgb);
    for p in 0..16 {
        assert!(rgb[3 * p + 2] >= rgb[3 * p], "{:?}", &rgb[3 * p..3 * p + 3]);
        assert_eq!((screen[p] >> 10) as u32, rgb[3 * p] as u32 * 31 / 255, "{}", p);
    }
    assert!(rgb[2] > 200);
}

#[test]
fn render_row_writes_only_its_row() {
    let renderer = one_sphere_renderer(v3(1, 1, 1), 1, 4);
    let mut screen = vec![0xffffu16; 16];
    let mut rgb = vec![7u8; 48];
    let mut rng = Rng::new(1);
    renderer.render_row(&mut rng, 1, &mut screen, &mut rgb);
    assert!(screen[0..4].iter().all(|&v| v == 0xffff));
    assert!(screen[8..].iter().all(|&v| v == 0xffff));
    assert!(screen[4..8].iter().all(|&v| v < 0x8000));
    assert!(rgb[0..12].iter().all(|&v| v == 7));
    assert!(rgb[24..].iter().all(|&v| v == 7));
}

#[test]
fn demonstration_scene_layout() {
    let mut rng = Rng::new(2);
    let scene = nspray::scene::gen_scene(&mut rng);
    assert_eq!(scene.objects.len(), 35);
    assert_eq!(scene.materials.len(), 6);
    match scene.objects[0] {
        Hittable::Plane(p) => assert_eq!(p.normal, v3(0, 1, 0)),
        Hittable::Sphere(_) => panic!("the floor comes first"),
    }
    for obj in &scene.objects[5..] {
        match obj {
            Hittable::Sphere(s) => {
                assert_eq!(s.radius, fx(1));
                assert_eq!(s.center.y, fx(0));
                assert!((-15 * 65536..15 * 65536).contains(&s.center.x.value));
                assert!((-15 * 65536..15 * 65536).contains(&s.center.z.value));
                assert_eq!(s.material, Some(4));
            }
            Hittable::Plane(_) => panic!("small balls are spheres"),
        }
    }
}

#[test]
fn blurred_rays_start_on_the_lens() {
    let cam = Camera::new(v3(0, 0, 0), v3(0, 0, -1), v3(0, 1, 0), fx(90), fx(1), fx(2), fx(1));
    assert_eq!(cam.lens_radius, fx(1));
    let mut rng = Rng::new(4);
    for _ in 0..20 {
        let r = cam.get_ray_blur(&mut rng, half(), half());
        assert_eq!(r.origin.z.value, 0);
        assert!(r.origin.x.value >= 0 && r.origin.y.value >= 0);
        assert!(r.origin.x.value <= 65536 && r.origin.y.value <= 65536);
        let target = r.origin + r.dir;
        assert!(target.x.value.abs() < 300 && target.y.value.abs() < 300, "{:?}", target);
    }
}

#[test]
fn sky_gradient_exact() {
    let scene = HittableList::new(vec![], vec![]);
    let renderer = Renderer::new(straight_camera(fx(1)), scene, 1, 1, 1);
    let mut rng = Rng::new(1);
    let up = renderer.ray_color(&Ray::new(v3(0, 0, 0), v3(0, 1, 0)), &mut rng, 10);
    assert_eq!(up, Vec3::new(FixedI32 { value: 32768 }, FixedI32 { value: 45875 }, fx(1)));
    let down = renderer.ray_color(&Ray::new(v3(0, 0, 0), v3(0, -1, 0)), &mut rng, 10);
    assert_eq!(down, v3(1, 1, 1));
    let none_left = renderer.ray_color(&Ray::new(v3(0, 0, 0), v3(0, 1, 0)), &mut rng, 0);
    assert_eq!(none_left, v3(0, 0, 0));
}

#[test]
fn fixed_seed_gives_fixed_frame() {
    let renderer = one_sphere_renderer(Vec3::new(half(), half(), fx(1)), 2, 6);
    let mut screen1 = vec![0u16; 36];
    let mut rgb1 = vec![0u8; 108];
    renderer.render_scene(&mut screen1, &mut rgb1);
    let mut screen2 = vec![0x1234u16; 36];
    let mut rgb2 = vec![99u8; 108];
    renderer.render_scene(&mut screen2, &mut rgb2);
    assert_eq!(screen1, screen2);
    assert_eq!(rgb1, rgb2);
    let mut rng = Rng::new(nspray::caster::RENDER_SEED);
    let mut screen3 = vec![0u16; 36];
    let mut rgb3 = vec![0u8; 108];
    for row in 0..6 {
        renderer.render_row(&mut rng, row, &mut screen3, &mut rgb3);
    }
    assert_eq!(screen1, screen3);
}

#[test]
fn nothing_drawn_on_a_miss_or_without_bounces() {
    let scene = HittableList::new(vec![], vec![]);
    let renderer = Renderer::new(straight_camera(fx(1)), scene, 1, 1, 1);
    let mut rng = Rng::new(8);
    let before = rng;
    renderer.ray_color(&Ray::new(v3(0, 0, 0), v3(0, 1, 0)), &mut rng, 10);
    assert_eq!(rng, before);
    let sphere_scene = one_sphere_renderer(v3(1, 1, 1), 1, 1);
    sphere_scene.ray_color(&Ray::new(v3(0, 0, 0), v3(0, 0, -1)), &mut rng, 0);
    assert_eq!(rng, before);
    sphere_scene.ray_color(&Ray::new(v3(0, 0, 0), v3(0, 0, -1)), &mut rng, 1);
    assert_ne!(rng, before);
}
