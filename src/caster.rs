//! The path tracer: traces jittered samples per pixel and writes the frame.
use crate::camera::Camera;
use crate::fixed::{draw_unit, fx, FixedI32};
use crate::hittable::{HitRecord, HittableList};
use crate::material::{diffuse_dir, Material};
use crate::ray::Ray;
use crate::rng::Rng;
use crate::vec3::{splat, sphere_draws, zero_vec, Vec3, Vec3FI32, MAX_DRAWS};
use vstd::prelude::*;

verus! {

/// How many times a ray may bounce before it counts as absorbed.
pub const MAX_DEPTH: u8 = 10;

/// Raw encoding of 0.001, the nearest distance at which a hit counts.
pub const T_MIN_RAW: i32 = 65;

/// Raw encoding of 200, the far plane.
pub const T_MAX_RAW: i32 = 13107200;

/// Each jitter component is a number in `[0, 1)` divided by this.
pub const JITTER_DIVISOR: i32 = 300;

/// The frame is presented after every this many rows.
pub const PROGRESS_ROWS: u16 = 10;

/// The seed of the generator that `Renderer::render_scene` draws from.
pub const RENDER_SEED: u64 = 1;

/// A jitter offset drawn from `g`: three numbers in `[0, 1)`, each divided
/// by 300; and the generator after the draws.
pub open spec fn draw_jitter(g: Rng) -> (Vec3FI32, Rng) {
    let (x, g1) = draw_unit(g);
    let (y, g2) = draw_unit(g1);
    let (z, g3) = draw_unit(g2);
    (Vec3 { x: x.div_int(300), y: y.div_int(300), z: z.div_int(300) }, g3)
}

/// The sky seen along a ray that hits nothing: white blended into sky blue
/// with the height of the unit direction. A direction of zero length in fixed
/// point is used as it is.
pub open spec fn sky(ray: Ray) -> Vec3FI32 {
    let mag = ray.dir.spec_mag();
    let unit = if mag.value != 0 {
        ray.dir.div_scalar(mag)
    } else {
        ray.dir
    };
    let t = unit.y.add_int(1).spec_mul(fx(32768));
    splat(fx(65536)).scale(fx(65536).spec_sub(t)).spec_add(
        Vec3 { x: fx(32768), y: fx(45875), z: fx(65536) }.scale(t),
    )
}

fn sky_color(ray: &Ray) -> (r: Vec3FI32)
    ensures
        r == sky(*ray),
{
    let dir = ray.dir();
    let mag = dir.mag();
    let unit_dir = if mag.value != 0 {
        dir / mag
    } else {
        dir
    };
    let t = (unit_dir.y + 1) * FixedI32 { value: 32768 };
    let one = FixedI32::new(1);
    Vec3FI32::from(one) * (one - t) + Vec3::new(
        FixedI32 { value: 32768 },
        FixedI32 { value: 45875 },
        FixedI32 { value: 65536 },
    ) * t
}

/// A color channel in `[0, 1]` scaled to `[0, max]`: the integer part of
/// `c * max`, clamped.
pub open spec fn channel(c: FixedI32, max: int) -> int {
    let v = c.mul_int(max).floor_int();
    if v < 0 {
        0
    } else if v > max {
        max
    } else {
        v
    }
}

/// The mean of the samples, gamma corrected by a square root.
pub open spec fn tone(sum: Vec3FI32, samples: u16) -> Vec3FI32 {
    let c = sum.div_scalar(fx(samples * 65536));
    Vec3 { x: c.x.spec_sqrt(), y: c.y.spec_sqrt(), z: c.z.spec_sqrt() }
}

/// A color packed as RGB555: red in bits 10 to 14, green in 5 to 9, blue in 0 to 4.
pub open spec fn pack555(c: Vec3FI32) -> u16 {
    (channel(c.x, 31) * 1024 + channel(c.y, 31) * 32 + channel(c.z, 31)) as u16
}

/// What a pixel is written as: RGB555, then red, green and blue at 8 bits.
pub open spec fn spec_shade(sum: Vec3FI32, samples: u16) -> (u16, u8, u8, u8) {
    let c = tone(sum, samples);
    (pack555(c), channel(c.x, 255) as u8, channel(c.y, 255) as u8, channel(c.z, 255) as u8)
}

fn to_channel(c: FixedI32, max: i32) -> (r: i32)
    requires
        0 < max <= 255,
    ensures
        r == channel(c, max as int),
        0 <= r <= max,
{
    let v = (c * max).to_int();
    if v < 0 {
        0
    } else if v > max {
        max
    } else {
        v
    }
}

/// Turns the sum of a pixel's sample colors into its RGB555 value and its
/// three 8-bit channels.
pub fn shade(sum: Vec3FI32, samples: u16) -> (r: (u16, u8, u8, u8))
    requires
        samples >= 1,
    ensures
        r == spec_shade(sum, samples),
{
    assert(fx(samples * 65536).value != 0) by {
        assert((samples * 65536) as i32 != 0) by (bit_vector)
            requires
                1 <= samples <= 65535,
        ;
    }
    let color = sum / FixedI32::from(samples);
    let color = Vec3::new(color.x.sqrt(), color.y.sqrt(), color.z.sqrt());
    let r5 = to_channel(color.x, 31);
    let g5 = to_channel(color.y, 31);
    let b5 = to_channel(color.z, 31);
    let packed: u16 = (r5 * 1024 + g5 * 32 + b5) as u16;
    let r8 = to_channel(color.x, 255);
    let g8 = to_channel(color.y, 255);
    let b8 = to_channel(color.z, 255);
    (packed, r8 as u8, g8 as u8, b8 as u8)
}

/// Whether the frame is presented after row `row`.
pub fn reports_progress(row: u16) -> (r: bool)
    ensures
        r == (row % PROGRESS_ROWS == 0),
{
    row % PROGRESS_ROWS == 0
}

/// A camera, a scene, the frame's size, and the samples taken per pixel.
pub struct Renderer {
    pub camera: Camera,
    pub scene: HittableList,
    pub width: u16,
    pub height: u16,
    pub samples: u16,
}

impl Renderer {
    pub open spec fn wf(self) -> bool {
        &&& self.scene.wf()
        &&& self.width >= 1
        &&& self.height >= 1
        &&& self.samples >= 1
    }

    /// The color carried back along `ray` with `depth` bounces left, drawing
    /// from `g` one point of the unit ball per scattering bounce; and the
    /// generator after. No bounce left, a hit without a material, and an
    /// absorbed ray give black; a miss gives the sky. Only scattering draws.
    pub open spec fn trace(self, ray: Ray, depth: nat, g: Rng) -> (Vec3FI32, Rng)
        decreases depth,
    {
        if depth == 0 {
            (zero_vec(), g)
        } else {
            let (any, best) = self.scene.spec_hit(ray, fx(T_MIN_RAW as int), fx(T_MAX_RAW as int));
            if !any {
                (sky(ray), g)
            } else {
                match best {
                    Some(rec) => match rec.material {
                        Some(m) => if m < self.scene.materials@.len() {
                            let (s, g1) = sphere_draws(g, MAX_DRAWS as nat);
                            match self.scene.materials@[m as int].spec_scatter(ray, rec, s) {
                                Some((next, attenuation)) => {
                                    let (c, g2) = self.trace(next, (depth - 1) as nat, g1);
                                    (c.spec_mul(attenuation), g2)
                                },
                                None => (zero_vec(), g1),
                            }
                        } else {
                            (zero_vec(), g)
                        },
                        None => (zero_vec(), g),
                    },
                    None => (zero_vec(), g),
                }
            }
        }
    }

    /// The ray through pixel `j` of row `i`, before jitter.
    pub open spec fn pixel_ray(self, i: int, j: int) -> Ray {
        let step_v = fx(65536).div_int(self.height as int);
        let step_u = fx(65536).div_int(self.width as int);
        self.camera.spec_ray_noblur(step_u.mul_int(j), step_v.mul_int(i))
    }

    /// The sum of `k` samples along `ray` drawn from `g`, each a jitter then a
    /// trace of the jittered ray; and the generator after them.
    pub open spec fn sample_loop(self, ray: Ray, k: nat, g: Rng) -> (Vec3FI32, Rng)
        decreases k,
    {
        if k == 0 {
            (zero_vec(), g)
        } else {
            let (sum, g1) = self.sample_loop(ray, (k - 1) as nat, g);
            let (jitter, g2) = draw_jitter(g1);
            let (c, g3) = self.trace(
                Ray { origin: ray.origin, dir: ray.dir.spec_add(jitter) },
                MAX_DEPTH as nat,
                g2,
            );
            (sum.spec_add(c), g3)
        }
    }

    /// What pixel `j` of row `i` is written as when its samples are drawn
    /// from `g`, and the generator after them.
    pub open spec fn pixel_out(self, i: int, j: int, g: Rng) -> ((u16, u8, u8, u8), Rng) {
        let (sum, g1) = self.sample_loop(self.pixel_ray(i, j), self.samples as nat, g);
        (spec_shade(sum, self.samples), g1)
    }

    /// The generator after the first `j` pixels of row `i`, from `g`.
    pub open spec fn row_rng(self, i: int, j: nat, g: Rng) -> Rng
        decreases j,
    {
        if j == 0 {
            g
        } else {
            self.pixel_out(i, j - 1, self.row_rng(i, (j - 1) as nat, g)).1
        }
    }

    /// The generator at the start of row `i` of a frame begun with `g`.
    pub open spec fn frame_rng(self, i: nat, g: Rng) -> Rng
        decreases i,
    {
        if i == 0 {
            g
        } else {
            self.row_rng(i - 1, self.width as nat, self.frame_rng((i - 1) as nat, g))
        }
    }

    /// Pixel `j` of row `i` of the frame rendered from `g`.
    pub open spec fn frame_pixel(self, i: int, j: int, g: Rng) -> (u16, u8, u8, u8) {
        self.pixel_out(i, j, self.row_rng(i, j as nat, self.frame_rng(i as nat, g))).0
    }

    pub fn new(camera: Camera, scene: HittableList, width: u16, height: u16, samples: u16) -> (r: Self)
        requires
            scene.wf(),
            width >= 1,
            height >= 1,
            samples >= 1,
        ensures
            r.wf(),
            r.camera == camera,
            r.width == width,
            r.height == height,
            r.samples == samples,
            r.scene.objects@ == scene.objects@,
            r.scene.materials@ == scene.materials@,
    {
        Renderer { camera, scene, width, height, samples }
    }

    /// Traces a ray with `ray_num` bounces left.
    pub fn ray_color(&self, ray: &Ray, rand: &mut Rng, ray_num: u8) -> (r: Vec3FI32)
        requires
            self.scene.wf(),
        ensures
            (r, *final(rand)) == self.trace(*ray, ray_num as nat, *old(rand)),
            ray_num == 0 ==> r == zero_vec() && *final(rand) == *old(rand),
            ray_num > 0 && !self.scene.spec_hit(*ray, fx(T_MIN_RAW as int), fx(T_MAX_RAW as int)).0 ==> r
                == sky(*ray) && *final(rand) == *old(rand),
        decreases ray_num,
    {
        let zero = FixedI32 { value: 0 };
        let black = Vec3 { x: zero, y: zero, z: zero };
        if ray_num == 0 {
            return black;
        }
        let mut rec = HitRecord::default();
        let t_min = FixedI32 { value: T_MIN_RAW };
        let t_max = FixedI32 { value: T_MAX_RAW };
        if self.scene.hit(ray, &mut rec, t_min, t_max) {
            if let Some(m) = rec.material {
                let material = &self.scene.materials[m];
                let scattered = material.scatter(rand, ray, &rec);
                if let Some((new_ray, attenuation)) = scattered {
                    let inner = self.ray_color(&new_ray, rand, ray_num - 1);
                    return inner * attenuation;
                } else {
                    return black;
                }
            }
            return black;
        }
        sky_color(ray)
    }

    /// A ray that meets a diffuse surface first, and whose bounce off it then
    /// meets nothing, carries back the sky seen along the bounce multiplied by
    /// the surface's albedo, whenever at least two bounces are left.
    pub proof fn lemma_diffuse_bounce_to_sky(self, ray: Ray, depth: nat, g: Rng)
        requires
            depth >= 2,
            self.scene.spec_hit(ray, fx(T_MIN_RAW as int), fx(T_MAX_RAW as int)).0,
            self.scene.spec_hit(ray, fx(T_MIN_RAW as int), fx(T_MAX_RAW as int)).1 is Some,
            ({
                let rec = self.scene.spec_hit(ray, fx(T_MIN_RAW as int), fx(T_MAX_RAW as int)).1.unwrap();
                let sample = sphere_draws(g, MAX_DRAWS as nat).0;
                &&& rec.material is Some
                &&& rec.material.unwrap() < self.scene.materials@.len()
                &&& self.scene.materials@[rec.material.unwrap() as int] is Lambertian
                &&& !self.scene.spec_hit(
                    Ray { origin: rec.point, dir: diffuse_dir(rec, sample) },
                    fx(T_MIN_RAW as int),
                    fx(T_MAX_RAW as int),
                ).0
            }),
        ensures
            ({
                let rec = self.scene.spec_hit(ray, fx(T_MIN_RAW as int), fx(T_MAX_RAW as int)).1.unwrap();
                let sample = sphere_draws(g, MAX_DRAWS as nat).0;
                let bounce = Ray { origin: rec.point, dir: diffuse_dir(rec, sample) };
                let albedo = match self.scene.materials@[rec.material.unwrap() as int] {
                    Material::Lambertian(l) => l.albedo,
                    _ => zero_vec(),
                };
                self.trace(ray, depth, g).0 == sky(bounce).spec_mul(albedo)
            }),
    {
        let rec = self.scene.spec_hit(ray, fx(T_MIN_RAW as int), fx(T_MAX_RAW as int)).1.unwrap();
        let (sample, g1) = sphere_draws(g, MAX_DRAWS as nat);
        let bounce = Ray { origin: rec.point, dir: diffuse_dir(rec, sample) };
        assert(self.trace(bounce, (depth - 1) as nat, g1).0 == sky(bounce));
    }

    /// With one sample per pixel, a pixel is the shade of a single trace of
    /// its jittered ray.
    pub proof fn lemma_single_sample_pixel(self, i: int, j: int, g: Rng)
        requires
            self.samples == 1,
        ensures
            ({
                let (jitter, g1) = draw_jitter(g);
                let ray = self.pixel_ray(i, j);
                let traced = self.trace(
                    Ray { origin: ray.origin, dir: ray.dir.spec_add(jitter) },
                    MAX_DEPTH as nat,
                    g1,
                );
                self.pixel_out(i, j, g) == (spec_shade(zero_vec().spec_add(traced.0), 1), traced.1)
            }),
    {
        let ray = self.pixel_ray(i, j);
        assert(self.sample_loop(ray, 0, g) == (zero_vec(), g));
    }

    /// End to end, with one sample per pixel: where the jittered ray of pixel
    /// `j` of row `i` meets a diffuse surface first and its bounce then meets
    /// nothing, the pixel of the frame rendered from `g` is the shade of the
    /// sky seen along that bounce multiplied by the surface's albedo.
    pub proof fn lemma_one_bounce_frame_pixel(self, i: int, j: int, g: Rng)
        requires
            self.samples == 1,
            ({
                let start = self.row_rng(i, j as nat, self.frame_rng(i as nat, g));
                let (jitter, g1) = draw_jitter(start);
                let pray = self.pixel_ray(i, j);
                let ray = Ray { origin: pray.origin, dir: pray.dir.spec_add(jitter) };
                let (any, best) = self.scene.spec_hit(ray, fx(T_MIN_RAW as int), fx(T_MAX_RAW as int));
                &&& any
                &&& best is Some
                &&& best.unwrap().material is Some
                &&& best.unwrap().material.unwrap() < self.scene.materials@.len()
                &&& self.scene.materials@[best.unwrap().material.unwrap() as int] is Lambertian
                &&& !self.scene.spec_hit(
                    Ray {
                        origin: best.unwrap().point,
                        dir: diffuse_dir(best.unwrap(), sphere_draws(g1, MAX_DRAWS as nat).0),
                    },
                    fx(T_MIN_RAW as int),
                    fx(T_MAX_RAW as int),
                ).0
            }),
        ensures
            ({
                let start = self.row_rng(i, j as nat, self.frame_rng(i as nat, g));
                let (jitter, g1) = draw_jitter(start);
                let pray = self.pixel_ray(i, j);
                let ray = Ray { origin: pray.origin, dir: pray.dir.spec_add(jitter) };
                let rec = self.scene.spec_hit(ray, fx(T_MIN_RAW as int), fx(T_MAX_RAW as int)).1.unwrap();
                let bounce = Ray { origin: rec.point, dir: diffuse_dir(rec, sphere_draws(g1, MAX_DRAWS as nat).0) };
                let albedo = match self.scene.materials@[rec.material.unwrap() as int] {
                    Material::Lambertian(l) => l.albedo,
                    _ => zero_vec(),
                };
                self.frame_pixel(i, j, g) == spec_shade(zero_vec().spec_add(sky(bounce).spec_mul(albedo)), 1)
            }),
    {
        let start = self.row_rng(i, j as nat, self.frame_rng(i as nat, g));
        let (jitter, g1) = draw_jitter(start);
        let pray = self.pixel_ray(i, j);
        let ray = Ray { origin: pray.origin, dir: pray.dir.spec_add(jitter) };
        self.lemma_single_sample_pixel(i, j, start);
        self.lemma_diffuse_bounce_to_sky(ray, MAX_DEPTH as nat, g1);
    }

    /// Samples pixel `j` of row `i` and returns what it is written as.
    pub fn render_pixel(&self, rand: &mut Rng, i: u16, j: u16) -> (r: (u16, u8, u8, u8))
        requires
            self.wf(),
        ensures
            (r, *final(rand)) == self.pixel_out(i as int, j as int, *old(rand)),
    {
        let one = FixedI32::new(1);
        let step_v = one / (self.height as i32);
        let step_u = one / (self.width as i32);
        let ray = self.camera.get_ray_noblur(step_u * (j as i32), step_v * (i as i32));
        assert(ray == self.pixel_ray(i as int, j as int));

        let ghost start = *rand;
        let zero = FixedI32 { value: 0 };
        let mut color = Vec3 { x: zero, y: zero, z: zero };
        let mut k: u16 = 0;
        while k < self.samples
            invariant
                self.wf(),
                k <= self.samples,
                (color, *rand) == self.sample_loop(ray, k as nat, start),
            decreases self.samples - k,
        {
            let jitter = random_jitter(rand);
            let new_ray = Ray::new(ray.origin(), ray.dir() + jitter);
            let c = self.ray_color(&new_ray, rand, MAX_DEPTH);
            color = color + c;
            k = k + 1;
        }
        shade(color, self.samples)
    }

    /// Renders row `i` into both buffers, drawing from `rand`, and leaves
    /// every other row as it was.
    pub fn render_row(&self, rand: &mut Rng, i: u16, screen_buff: &mut Vec<u16>, rgb_buff: &mut Vec<u8>)
        requires
            self.wf(),
            i < self.height,
            old(screen_buff)@.len() == self.width * self.height,
            old(rgb_buff)@.len() == self.width * self.height * 3,
        ensures
            final(screen_buff)@.len() == old(screen_buff)@.len(),
            final(rgb_buff)@.len() == old(rgb_buff)@.len(),
            *final(rand) == self.row_rng(i as int, self.width as nat, *old(rand)),
            forall|j: int|
                0 <= j < self.width ==> #[trigger] pixel_at(*final(screen_buff), *final(rgb_buff), i * self.width + j)
                    == self.pixel_out(i as int, j, self.row_rng(i as int, j as nat, *old(rand))).0,
            forall|k: int|
                0 <= k < old(screen_buff)@.len() && (k < i * self.width || k >= i * self.width + self.width)
                    ==> #[trigger] final(screen_buff)@[k] == old(screen_buff)@[k],
            forall|k: int|
                0 <= k < old(rgb_buff)@.len() && (k < 3 * (i * self.width) || k >= 3 * (i * self.width + self.width))
                    ==> #[trigger] final(rgb_buff)@[k] == old(rgb_buff)@[k],
    {
        let w = self.width as usize;
        let screen_len = screen_buff.len();
        let rgb_len = rgb_buff.len();
        proof {
            lemma_row_bounds(i as int, self.width as int, self.height as int);
        }
        let row_start = (i as usize) * w;
        let ghost start = *rand;
        let mut j: u16 = 0;
        while j < self.width
            invariant
                self.wf(),
                i < self.height,
                w == self.width,
                row_start == i * self.width,
                row_start + w <= self.width * self.height,
                screen_len == self.width * self.height,
                rgb_len == self.width * self.height * 3,
                j <= self.width,
                screen_buff@.len() == self.width * self.height,
                rgb_buff@.len() == self.width * self.height * 3,
                *rand == self.row_rng(i as int, j as nat, start),
                forall|jj: int|
                    0 <= jj < j ==> #[trigger] pixel_at(*screen_buff, *rgb_buff, i * self.width + jj)
                        == self.pixel_out(i as int, jj, self.row_rng(i as int, jj as nat, start)).0,
                forall|k: int|
                    0 <= k < screen_buff@.len() && (k < i * self.width || k >= i * self.width + j)
                        ==> #[trigger] screen_buff@[k] == old(screen_buff)@[k],
                forall|k: int|
                    0 <= k < rgb_buff@.len() && (k < 3 * (i * self.width) || k >= 3 * (i * self.width + j))
                        ==> #[trigger] rgb_buff@[k] == old(rgb_buff)@[k],
            decreases self.width - j,
        {
            let p = self.render_pixel(rand, i, j);
            let index = row_start + (j as usize);
            let ghost before_screen = *screen_buff;
            let ghost before_rgb = *rgb_buff;
            screen_buff.set(index, p.0);
            rgb_buff.set(index * 3, p.1);
            rgb_buff.set(index * 3 + 1, p.2);
            rgb_buff.set(index * 3 + 2, p.3);
            assert(pixel_at(*screen_buff, *rgb_buff, i * self.width + j) == p);
            assert forall|jj: int| 0 <= jj < j implies #[trigger] pixel_at(*screen_buff, *rgb_buff, i * self.width + jj)
                == pixel_at(before_screen, before_rgb, i * self.width + jj) by {
                assert(screen_buff@[i * self.width + jj] == before_screen@[i * self.width + jj]);
                assert(rgb_buff@[3 * (i * self.width + jj)] == before_rgb@[3 * (i * self.width + jj)]);
                assert(rgb_buff@[3 * (i * self.width + jj) + 1] == before_rgb@[3 * (i * self.width + jj) + 1]);
                assert(rgb_buff@[3 * (i * self.width + jj) + 2] == before_rgb@[3 * (i * self.width + jj) + 2]);
            }
            j = j + 1;
        }
    }

    #[verifier::rlimit(50)]
    /// Renders the whole frame, row by row from the top, drawing from a
    /// generator seeded with `RENDER_SEED`: the frame depends on the renderer
    /// alone.
    pub fn render_scene(&self, screen_buff: &mut Vec<u16>, rgb_buff: &mut Vec<u8>)
        requires
            self.wf(),
            old(screen_buff)@.len() == self.width * self.height,
            old(rgb_buff)@.len() == self.width * self.height * 3,
        ensures
            final(screen_buff)@.len() == old(screen_buff)@.len(),
            final(rgb_buff)@.len() == old(rgb_buff)@.len(),
            forall|i: int, j: int|
                0 <= i < self.height && 0 <= j < self.width ==> #[trigger] pixel_at(
                    *final(screen_buff),
                    *final(rgb_buff),
                    i * self.width + j,
                ) == self.frame_pixel(i, j, Rng::spec_new(RENDER_SEED)),
    {
        let mut rand = Rng::new(RENDER_SEED);
        let ghost start = rand;
        let mut i: u16 = 0;
        while i < self.height
            invariant
                self.wf(),
                i <= self.height,
                start == Rng::spec_new(RENDER_SEED),
                rand == self.frame_rng(i as nat, start),
                screen_buff@.len() == self.width * self.height,
                rgb_buff@.len() == self.width * self.height * 3,
                forall|ii: int, j: int|
                    0 <= ii < i && 0 <= j < self.width ==> #[trigger] pixel_at(
                        *screen_buff,
                        *rgb_buff,
                        ii * self.width + j,
                    ) == self.frame_pixel(ii, j, start),
            decreases self.height - i,
        {
            let ghost before_screen = *screen_buff;
            let ghost before_rgb = *rgb_buff;
            self.render_row(&mut rand, i, screen_buff, rgb_buff);
            assert(rand == self.frame_rng((i + 1) as nat, start));
            assert forall|ii: int, j: int|
                0 <= ii < i + 1 && 0 <= j < self.width implies #[trigger] pixel_at(
                    *screen_buff,
                    *rgb_buff,
                    ii * self.width + j,
                ) == self.frame_pixel(ii, j, start) by {
                if ii < i {
                    lemma_earlier_row(ii, i as int, j, self.width as int, self.height as int);
                    assert(pixel_at(*screen_buff, *rgb_buff, ii * self.width + j) == pixel_at(
                        before_screen,
                        before_rgb,
                        ii * self.width + j,
                    ));
                }
            }
            i = i + 1;
        }
    }
}

/// Three numbers in `[0, 1)`, each divided by 300.
fn random_jitter(rand: &mut Rng) -> (r: Vec3FI32)
    ensures
        (r, *final(rand)) == draw_jitter(*old(rand)),
{
    let x = jitter_component(FixedI32::rand(rand));
    let y = jitter_component(FixedI32::rand(rand));
    let z = jitter_component(FixedI32::rand(rand));
    Vec3::new(x, y, z)
}

fn jitter_component(v: FixedI32) -> (r: FixedI32)
    ensures
        r == v.div_int(JITTER_DIVISOR as int),
{
    v / JITTER_DIVISOR
}

/// Pixel `idx` of the two buffers: its RGB555 value and its three 8-bit channels.
pub open spec fn pixel_at(screen_buff: Vec<u16>, rgb_buff: Vec<u8>, idx: int) -> (u16, u8, u8, u8) {
    (screen_buff@[idx], rgb_buff@[3 * idx], rgb_buff@[3 * idx + 1], rgb_buff@[3 * idx + 2])
}

proof fn lemma_row_bounds(i: int, w: int, h: int)
    requires
        0 <= i < h,
        w >= 1,
    ensures
        i * w + w <= w * h,
        0 <= i * w,
{
    assert(i * w + w <= w * h) by (nonlinear_arith)
        requires 0 <= i < h, w >= 1;
    assert(0 <= i * w) by (nonlinear_arith)
        requires 0 <= i, w >= 1;
}

proof fn lemma_earlier_row(ii: int, i: int, j: int, w: int, h: int)
    requires
        0 <= ii < i < h,
        0 <= j < w,
    ensures
        0 <= ii * w + j,
        ii * w + j < i * w,
        3 * (ii * w + j) + 2 < 3 * (i * w),
        ii * w + j < w * h,
{
    assert(ii * w + w <= i * w) by (nonlinear_arith)
        requires ii < i, w >= 1;
    assert(0 <= ii * w) by (nonlinear_arith)
        requires 0 <= ii, w >= 1;
    assert(i * w <= w * h) by (nonlinear_arith)
        requires i < h, w >= 1;
}

} // verus!
