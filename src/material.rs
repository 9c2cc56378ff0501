//! How surfaces scatter light: diffuse, checkered diffuse and metal.
use crate::fixed::{fx, FixedI32};
use crate::hittable::HitRecord;
use crate::ray::Ray;
use crate::vec3::{sphere_draws, Vec3FI32, MAX_DRAWS};
use crate::rng::Rng;
use vstd::prelude::*;

verus! {

/// The mirror image of `v` about the unit normal `n`: `v - n * (v . n) * 2`.
pub open spec fn spec_reflect(v: Vec3FI32, n: Vec3FI32) -> Vec3FI32 {
    v.spec_sub(n.scale(v.spec_dot(n)).scale(fx(131072)))
}

pub fn reflect(v: Vec3FI32, n: Vec3FI32) -> (r: Vec3FI32)
    ensures
        r == spec_reflect(v, n),
{
    v - n * v.dot(n) * FixedI32::new(2)
}

/// The diffuse direction: the normal plus the sample, or the normal alone
/// where that sum is nearly zero.
pub open spec fn diffuse_dir(record: HitRecord, sample: Vec3FI32) -> Vec3FI32 {
    let d = record.normal.spec_add(sample);
    if d.spec_near_zero() {
        record.normal
    } else {
        d
    }
}

fn diffuse_direction(record: &HitRecord, sample: Vec3FI32) -> (r: Vec3FI32)
    ensures
        r == diffuse_dir(*record, sample),
{
    let scattered_dir = record.normal + sample;
    if scattered_dir.near_zero() {
        record.normal
    } else {
        scattered_dir
    }
}

/// A diffuse surface of one color.
#[derive(Clone, Copy, Debug)]
pub struct Lambertian {
    pub albedo: Vec3FI32,
}

impl Lambertian {
    pub open spec fn spec_scatter(self, record: HitRecord, sample: Vec3FI32) -> Option<(Ray, Vec3FI32)> {
        Some((Ray { origin: record.point, dir: diffuse_dir(record, sample) }, self.albedo))
    }

    pub fn new(albedo: Vec3FI32) -> (r: Self)
        ensures
            r.albedo == albedo,
    {
        Lambertian { albedo }
    }

    /// Scatters with the given point of the unit ball.
    pub fn scatter_with(&self, record: &HitRecord, sample: Vec3FI32) -> (r: Option<(Ray, Vec3FI32)>)
        ensures
            r == self.spec_scatter(*record, sample),
    {
        Some((Ray::new(record.point, diffuse_direction(record, sample)), self.albedo))
    }

    /// Scatters towards the normal plus a random point of the unit ball.
    pub fn scatter(&self, rand: &mut Rng, record: &HitRecord) -> (r: Option<(Ray, Vec3FI32)>)
        ensures
            r == self.spec_scatter(*record, sphere_draws(*old(rand), MAX_DRAWS as nat).0),
            *final(rand) == sphere_draws(*old(rand), MAX_DRAWS as nat).1,
    {
        let sample = Vec3FI32::random_in_unit_sphere(rand);
        self.scatter_with(record, sample)
    }
}

/// Whether the mapped point lies on a square of the second color: the
/// integer parts (rounded down) of its first two coordinates differ in parity.
pub open spec fn on_second_square(m: Vec3FI32) -> bool {
    m.x.floor_int() % 2 != m.y.floor_int() % 2
}

/// `0` or `1`: the parity of the integer part of `v`, rounded down.
fn floor_parity(v: FixedI32) -> (r: i32)
    ensures
        r == v.floor_int() % 2,
{
    let w = v.to_int();
    let m = w % 2;
    if m < 0 {
        m + 2
    } else {
        m
    }
}

/// A diffuse surface in a checkerboard of two colors over the hit's mapped
/// coordinates; without them it has the first color.
#[derive(Clone, Copy, Debug)]
pub struct CheckeredLambertian {
    pub albedo1: Vec3FI32,
    pub albedo2: Vec3FI32,
}

impl CheckeredLambertian {
    pub open spec fn spec_albedo(self, record: HitRecord) -> Vec3FI32 {
        match record.mapped_point {
            Some(m) => if on_second_square(m) {
                self.albedo2
            } else {
                self.albedo1
            },
            None => self.albedo1,
        }
    }

    pub open spec fn spec_scatter(self, record: HitRecord, sample: Vec3FI32) -> Option<(Ray, Vec3FI32)> {
        Some((Ray { origin: record.point, dir: diffuse_dir(record, sample) }, self.spec_albedo(record)))
    }

    pub fn new(albedo1: Vec3FI32, albedo2: Vec3FI32) -> (r: Self)
        ensures
            r.albedo1 == albedo1,
            r.albedo2 == albedo2,
    {
        CheckeredLambertian { albedo1, albedo2 }
    }

    pub fn scatter_with(&self, record: &HitRecord, sample: Vec3FI32) -> (r: Option<(Ray, Vec3FI32)>)
        ensures
            r == self.spec_scatter(*record, sample),
    {
        let scattered_dir = diffuse_direction(record, sample);
        let mut albedo = self.albedo1;
        if let Some(mapped) = record.mapped_point {
            if floor_parity(mapped.x) != floor_parity(mapped.y) {
                albedo = self.albedo2;
            }
        }
        Some((Ray::new(record.point, scattered_dir), albedo))
    }

    /// Scatters as `Lambertian` does, with the color of the square hit.
    pub fn scatter(&self, rand: &mut Rng, record: &HitRecord) -> (r: Option<(Ray, Vec3FI32)>)
        ensures
            r == self.spec_scatter(*record, sphere_draws(*old(rand), MAX_DRAWS as nat).0),
            *final(rand) == sphere_draws(*old(rand), MAX_DRAWS as nat).1,
    {
        let sample = Vec3FI32::random_in_unit_sphere(rand);
        self.scatter_with(record, sample)
    }
}

/// A mirror whose reflections are blurred by `fuzziness`.
#[derive(Clone, Copy, Debug)]
pub struct Metal {
    pub fuzziness: FixedI32,
    pub albedo: Vec3FI32,
}

impl Metal {
    /// The reflected unit direction plus the sample scaled by the fuzziness;
    /// kept only if it leaves the surface. A direction of zero length in fixed
    /// point has no unit vector and is absorbed.
    pub open spec fn spec_scatter(self, ray: Ray, record: HitRecord, sample: Vec3FI32) -> Option<(Ray, Vec3FI32)> {
        if ray.dir.spec_mag().value == 0 {
            None
        } else {
            let noise = sample.scale(self.fuzziness);
            let reflected = spec_reflect(ray.dir.spec_unit_vector(), record.normal).spec_add(noise);
            if reflected.spec_dot(record.normal).value > 0 {
                Some((Ray { origin: record.point, dir: reflected }, self.albedo))
            } else {
                None
            }
        }
    }

    pub fn new(fuzziness: FixedI32, albedo: Vec3FI32) -> (r: Self)
        ensures
            r.fuzziness == fuzziness,
            r.albedo == albedo,
    {
        Metal { fuzziness, albedo }
    }

    pub fn scatter_with(&self, ray: &Ray, record: &HitRecord, sample: Vec3FI32) -> (r: Option<(Ray, Vec3FI32)>)
        ensures
            r == self.spec_scatter(*ray, *record, sample),
    {
        if ray.dir().mag().value == 0 {
            return None;
        }
        let noise = sample * self.fuzziness;
        let reflected = reflect(ray.dir().unit_vector(), record.normal) + noise;
        let new_ray = Ray::new(record.point, reflected);
        if new_ray.dir().dot(record.normal).value > 0 {
            Some((new_ray, self.albedo))
        } else {
            None
        }
    }

    /// Reflects the ray, perturbed by a random point of the unit ball.
    pub fn scatter(&self, rand: &mut Rng, ray: &Ray, record: &HitRecord) -> (r: Option<(Ray, Vec3FI32)>)
        ensures
            r == self.spec_scatter(*ray, *record, sphere_draws(*old(rand), MAX_DRAWS as nat).0),
            *final(rand) == sphere_draws(*old(rand), MAX_DRAWS as nat).1,
    {
        let sample = Vec3FI32::random_in_unit_sphere(rand);
        self.scatter_with(ray, record, sample)
    }
}

/// The kinds of surface a primitive can have.
#[derive(Clone, Copy, Debug)]
pub enum Material {
    Lambertian(Lambertian),
    Checkered(CheckeredLambertian),
    Metal(Metal),
}

impl Material {
    /// The outgoing ray and attenuation for an incoming ray and a point of the
    /// unit ball, or nothing when the light is absorbed.
    pub open spec fn spec_scatter(self, ray: Ray, record: HitRecord, sample: Vec3FI32) -> Option<(Ray, Vec3FI32)> {
        match self {
            Material::Lambertian(m) => m.spec_scatter(record, sample),
            Material::Checkered(m) => m.spec_scatter(record, sample),
            Material::Metal(m) => m.spec_scatter(ray, record, sample),
        }
    }

    pub fn scatter_with(&self, ray: &Ray, record: &HitRecord, sample: Vec3FI32) -> (r: Option<(Ray, Vec3FI32)>)
        ensures
            r == self.spec_scatter(*ray, *record, sample),
    {
        match self {
            Material::Lambertian(m) => m.scatter_with(record, sample),
            Material::Checkered(m) => m.scatter_with(record, sample),
            Material::Metal(m) => m.scatter_with(ray, record, sample),
        }
    }

    /// Scatters with a random point of the unit ball.
    pub fn scatter(&self, rand: &mut Rng, ray: &Ray, record: &HitRecord) -> (r: Option<(Ray, Vec3FI32)>)
        ensures
            r == self.spec_scatter(*ray, *record, sphere_draws(*old(rand), MAX_DRAWS as nat).0),
            *final(rand) == sphere_draws(*old(rand), MAX_DRAWS as nat).1,
    {
        let sample = Vec3FI32::random_in_unit_sphere(rand);
        self.scatter_with(ray, record, sample)
    }
}

} // verus!
