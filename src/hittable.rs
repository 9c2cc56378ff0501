//! Geometric primitives, ray intersection, and the scene that holds them.
use crate::fixed::{fx, FixedI32};
use crate::material::Material;
use crate::matrix::{det_of, inverse_of, mul_vec_of, Matrix3x3, Matrix3x3FI32};
use crate::ray::Ray;
use crate::vec3::{Vec3, Vec3FI32};
use std::ops::Neg;
use vstd::prelude::*;

verus! {

/// Raw encoding of 0.01, below which a ray counts as parallel to a plane.
pub const PARALLEL_EPSILON_RAW: i32 = 655;

/// What an intersection found.
#[derive(Clone, Copy, Debug)]
pub struct HitRecord {
    /// The hit point.
    pub point: Vec3FI32,
    /// The hit point in the primitive's own coordinates, where it has them.
    pub mapped_point: Option<Vec3FI32>,
    /// The surface normal, turned to face the incoming ray.
    pub normal: Vec3FI32,
    /// The distance along the ray, in multiples of its direction.
    pub t: FixedI32,
    /// Whether the outward normal already faced the ray.
    pub front: bool,
    /// The index of the material in the scene's table.
    pub material: Option<usize>,
}

/// Whether the outward normal `n` faces the ray (their dot product is negative).
pub open spec fn faces(ray: Ray, n: Vec3FI32) -> bool {
    ray.dir.spec_dot(n).value < 0
}

/// The outward normal `n`, reversed where it does not face the ray.
pub open spec fn facing_normal(ray: Ray, n: Vec3FI32) -> Vec3FI32 {
    if faces(ray, n) {
        n
    } else {
        n.scale(fx(-65536))
    }
}

/// `t` lies in `[t_min, t_max]`.
pub open spec fn in_range(t: FixedI32, t_min: FixedI32, t_max: FixedI32) -> bool {
    t_min.value <= t.value <= t_max.value
}

impl HitRecord {
    /// Records the normal turned towards the ray and which side was hit.
    pub fn set_face_normal(&mut self, ray: &Ray, outward_normal: Vec3FI32)
        ensures
            *final(self) == (HitRecord {
                front: faces(*ray, outward_normal),
                normal: facing_normal(*ray, outward_normal),
                ..*old(self)
            }),
    {
        self.front = ray.dir().dot(outward_normal).value < 0;
        self.normal = if self.front {
            outward_normal
        } else {
            outward_normal * FixedI32::new(-1)
        };
    }
}

impl std::default::Default for HitRecord {
    fn default() -> (r: HitRecord)
        ensures
            r == (HitRecord {
                point: crate::vec3::zero_vec(),
                mapped_point: None,
                normal: crate::vec3::zero_vec(),
                t: fx(0),
                front: false,
                material: None,
            }),
    {
        let zero = FixedI32 { value: 0 };
        let origin = Vec3 { x: zero, y: zero, z: zero };
        HitRecord {
            point: origin,
            mapped_point: None,
            normal: origin,
            t: zero,
            front: false,
            material: None,
        }
    }
}

/// A sphere; its radius must not be zero.
#[derive(Clone, Copy, Debug)]
pub struct Sphere {
    pub center: Vec3FI32,
    pub radius: FixedI32,
    pub material: Option<usize>,
}

impl Sphere {
    pub open spec fn wf(self) -> bool {
        self.radius.value != 0
    }

    /// `a`, `half_b` and the discriminant `half_b^2 - a*c` of the ray's quadratic.
    pub open spec fn quadratic(self, ray: Ray) -> (FixedI32, FixedI32, FixedI32) {
        let oc = ray.origin.spec_sub(self.center);
        let a = ray.dir.spec_mag_squared();
        let half_b = oc.spec_dot(ray.dir);
        let c = oc.spec_mag_squared().spec_sub(self.radius.spec_mul(self.radius));
        (a, half_b, half_b.spec_mul(half_b).spec_sub(a.spec_mul(c)))
    }

    /// The record of a hit at distance `t`.
    pub open spec fn record_at(self, ray: Ray, t: FixedI32) -> HitRecord {
        let point = ray.spec_at(t);
        let outward = point.spec_sub(self.center).div_scalar(self.radius);
        HitRecord {
            point,
            mapped_point: None,
            normal: facing_normal(ray, outward),
            t,
            front: faces(ray, outward),
            material: self.material,
        }
    }

    /// The nearer root if it lies in range, else the farther one if it does;
    /// nothing when the discriminant is negative, or when the direction has
    /// zero length in fixed point, where no root can be computed.
    pub open spec fn spec_hit(self, ray: Ray, t_min: FixedI32, t_max: FixedI32) -> Option<HitRecord> {
        let (a, half_b, disc) = self.quadratic(ray);
        if disc.value < 0 || a.value == 0 {
            None
        } else {
            let sqrtd = disc.spec_sqrt();
            let near = half_b.spec_neg().spec_sub(sqrtd).spec_div(a);
            let far = half_b.spec_neg().spec_add(sqrtd).spec_div(a);
            if in_range(near, t_min, t_max) {
                Some(self.record_at(ray, near))
            } else if in_range(far, t_min, t_max) {
                Some(self.record_at(ray, far))
            } else {
                None
            }
        }
    }

    pub fn new(center: Vec3FI32, radius: FixedI32, material: Option<usize>) -> (r: Self)
        requires
            radius.value != 0,
        ensures
            r == (Sphere { center, radius, material }),
            r.wf(),
    {
        Sphere { center, radius, material }
    }

    /// Intersects the ray within `[t_min, t_max]`; on a hit the record is
    /// overwritten, otherwise left as it was.
    pub fn hit(&self, ray: &Ray, record: &mut HitRecord, t_min: FixedI32, t_max: FixedI32) -> (r: bool)
        requires
            self.wf(),
        ensures
            r == self.spec_hit(*ray, t_min, t_max).is_some(),
            r ==> *final(record) == self.spec_hit(*ray, t_min, t_max).unwrap(),
            !r ==> *final(record) == *old(record),
    {
        let oc = ray.origin() - self.center;

        let a = ray.dir().mag_squared();
        let half_b = oc.dot(ray.dir());
        let c = oc.mag_squared() - self.radius * self.radius;

        let discriminant = half_b * half_b - a * c;

        if discriminant.value < 0 || a.value == 0 {
            return false;
        }
        let sqrtd = discriminant.sqrt();

        let mut root = (half_b.neg() - sqrtd) / a;

        if root.value < t_min.value || root.value > t_max.value {
            root = (half_b.neg() + sqrtd) / a;
            if root.value < t_min.value || root.value > t_max.value {
                return false;
            }
        }
        record.t = root;
        record.point = ray.at(root);

        let outward_normal = (record.point - self.center) / self.radius;
        record.set_face_normal(ray, outward_normal);

        record.material = self.material;
        record.mapped_point = None;

        true
    }
}

/// The row-major matrix whose columns are `v`, `u` and `n`.
pub open spec fn basis_of(v: Vec3FI32, u: Vec3FI32, n: Vec3FI32) -> Seq<FixedI32> {
    seq![v.x, u.x, n.x, v.y, u.y, n.y, v.z, u.z, n.z]
}

/// A plane through `center`, spanned by two vectors. `inverse` maps a point's
/// offset from the center to its coordinates along the spans and the normal.
#[derive(Clone, Copy, Debug)]
pub struct Plane {
    pub center: Vec3FI32,
    pub normal: Vec3FI32,
    pub inverse: Matrix3x3FI32,
    pub material: Option<usize>,
}

impl Plane {
    /// Nothing when the ray is parallel within 0.01, or when the distance is
    /// out of range.
    pub open spec fn spec_hit(self, ray: Ray, t_min: FixedI32, t_max: FixedI32) -> Option<HitRecord> {
        let denom = ray.dir.spec_dot(self.normal);
        if denom.spec_abs().value < PARALLEL_EPSILON_RAW {
            None
        } else {
            let t = self.center.spec_sub(ray.origin).spec_dot(self.normal).spec_div(denom);
            if !in_range(t, t_min, t_max) {
                None
            } else {
                let point = ray.spec_at(t);
                Some(
                    HitRecord {
                        point,
                        mapped_point: Some(mul_vec_of(self.inverse.state@, point.spec_sub(self.center))),
                        normal: facing_normal(ray, self.normal),
                        t,
                        front: faces(ray, self.normal),
                        material: self.material,
                    },
                )
            }
        }
    }

    /// The plane through `center` spanned by `v` and `u`, with normal `v x u`;
    /// the spans and the normal must be independent.
    pub fn new(center: Vec3FI32, v: Vec3FI32, u: Vec3FI32, material: Option<usize>) -> (r: Self)
        requires
            det_of(basis_of(v, u, v.spec_cross(u))).value != 0,
        ensures
            r.center == center,
            r.normal == v.spec_cross(u),
            r.inverse.state@ == inverse_of(basis_of(v, u, v.spec_cross(u))),
            r.material == material,
    {
        let normal = v.cross(u);
        let basis = Matrix3x3::new([v.x, u.x, normal.x, v.y, u.y, normal.y, v.z, u.z, normal.z]);
        assert(basis.state@ =~= basis_of(v, u, normal));
        let inverse = basis.invert();
        Plane { center, normal, inverse, material }
    }

    /// Intersects the ray within `[t_min, t_max]`; on a hit the record is
    /// overwritten, otherwise left as it was.
    pub fn hit(&self, ray: &Ray, record: &mut HitRecord, t_min: FixedI32, t_max: FixedI32) -> (r: bool)
        ensures
            r == self.spec_hit(*ray, t_min, t_max).is_some(),
            r ==> *final(record) == self.spec_hit(*ray, t_min, t_max).unwrap(),
            !r ==> *final(record) == *old(record),
    {
        let denom = ray.dir().dot(self.normal);

        if denom.abs().value < PARALLEL_EPSILON_RAW {
            return false;
        }
        let t = (self.center - ray.origin()).dot(self.normal) / denom;

        if t.value < t_min.value || t.value > t_max.value {
            return false;
        }
        record.t = t;
        record.point = ray.at(t);
        record.mapped_point = Some(self.inverse * (record.point - self.center));
        record.set_face_normal(ray, self.normal);
        record.material = self.material;

        true
    }
}

/// A primitive of the scene.
#[derive(Clone, Copy, Debug)]
pub enum Hittable {
    Sphere(Sphere),
    Plane(Plane),
}

/// A material index that is absent or within a table of `n` materials.
pub open spec fn material_in(m: Option<usize>, n: nat) -> bool {
    match m {
        Some(i) => i < n,
        None => true,
    }
}

impl Hittable {
    pub open spec fn wf(self) -> bool {
        match self {
            Hittable::Sphere(s) => s.wf(),
            Hittable::Plane(_) => true,
        }
    }

    pub open spec fn material(self) -> Option<usize> {
        match self {
            Hittable::Sphere(s) => s.material,
            Hittable::Plane(p) => p.material,
        }
    }

    pub open spec fn spec_hit(self, ray: Ray, t_min: FixedI32, t_max: FixedI32) -> Option<HitRecord> {
        match self {
            Hittable::Sphere(s) => s.spec_hit(ray, t_min, t_max),
            Hittable::Plane(p) => p.spec_hit(ray, t_min, t_max),
        }
    }

    pub fn hit(&self, ray: &Ray, record: &mut HitRecord, t_min: FixedI32, t_max: FixedI32) -> (r: bool)
        requires
            self.wf(),
        ensures
            r == self.spec_hit(*ray, t_min, t_max).is_some(),
            r ==> *final(record) == self.spec_hit(*ray, t_min, t_max).unwrap(),
            !r ==> *final(record) == *old(record),
    {
        match self {
            Hittable::Sphere(s) => s.hit(ray, record, t_min, t_max),
            Hittable::Plane(p) => p.hit(ray, record, t_min, t_max),
        }
    }
}

/// Intersects every object in turn: whether any was hit, and the first hit
/// strictly nearer than `t_max` and than every earlier one kept.
pub open spec fn scan(objects: Seq<Hittable>, ray: Ray, t_min: FixedI32, t_max: FixedI32) -> (bool, Option<HitRecord>)
    decreases objects.len(),
{
    if objects.len() == 0 {
        (false, None)
    } else {
        let (any, best) = scan(objects.drop_last(), ray, t_min, t_max);
        match objects.last().spec_hit(ray, t_min, t_max) {
            Some(rec) => {
                let bound = match best {
                    Some(b) => b.t,
                    None => t_max,
                };
                if rec.t.value < bound.value {
                    (true, Some(rec))
                } else {
                    (true, best)
                }
            },
            None => (any, best),
        }
    }
}

proof fn lemma_scan_material(objects: Seq<Hittable>, ray: Ray, t_min: FixedI32, t_max: FixedI32, n: nat)
    requires
        forall|i: int| 0 <= i < objects.len() ==> material_in(#[trigger] objects[i].material(), n),
    ensures
        match scan(objects, ray, t_min, t_max).1 {
            Some(b) => material_in(b.material, n),
            None => true,
        },
    decreases objects.len(),
{
    if objects.len() > 0 {
        let init = objects.drop_last();
        assert forall|i: int| 0 <= i < init.len() implies material_in(#[trigger] init[i].material(), n) by {
            assert(init[i] == objects[i]);
        }
        lemma_scan_material(init, ray, t_min, t_max, n);
        assert(material_in(objects[objects.len() - 1].material(), n));
    }
}

/// The scene: its primitives, and the table of materials they refer to by index.
pub struct HittableList {
    pub objects: Vec<Hittable>,
    pub materials: Vec<Material>,
}

impl HittableList {
    /// Every primitive is well formed and refers to a material of the table.
    pub open spec fn wf(self) -> bool {
        forall|i: int|
            0 <= i < self.objects@.len() ==> #[trigger] self.objects@[i].wf() && material_in(
                self.objects@[i].material(),
                self.materials@.len(),
            )
    }

    pub open spec fn spec_hit(self, ray: Ray, t_min: FixedI32, t_max: FixedI32) -> (bool, Option<HitRecord>) {
        scan(self.objects@, ray, t_min, t_max)
    }

    pub fn new(objects: Vec<Hittable>, materials: Vec<Material>) -> (r: Self)
        requires
            forall|i: int|
                0 <= i < objects@.len() ==> #[trigger] objects@[i].wf() && material_in(
                    objects@[i].material(),
                    materials@.len(),
                ),
        ensures
            r.objects@ == objects@,
            r.materials@ == materials@,
            r.wf(),
    {
        HittableList { objects, materials }
    }

    /// Intersects every object; reports whether any was hit, and overwrites
    /// the record with a hit only when it is strictly nearer than the nearest
    /// kept so far (at first, than `t_max`).
    pub fn hit(&self, ray: &Ray, record: &mut HitRecord, t_min: FixedI32, t_max: FixedI32) -> (r: bool)
        requires
            self.wf(),
        ensures
            r == self.spec_hit(*ray, t_min, t_max).0,
            *final(record) == match self.spec_hit(*ray, t_min, t_max).1 {
                Some(b) => b,
                None => *old(record),
            },
            match self.spec_hit(*ray, t_min, t_max).1 {
                Some(b) => material_in(b.material, self.materials@.len()),
                None => true,
            },
    {
        let mut min_dist = t_max;
        let mut has_hit = false;
        let mut tmp_rec = HitRecord::default();
        let ghost start = *record;
        let mut i: usize = 0;
        while i < self.objects.len()
            invariant
                self.wf(),
                i <= self.objects@.len(),
                has_hit == scan(self.objects@.subrange(0, i as int), *ray, t_min, t_max).0,
                *record == match scan(self.objects@.subrange(0, i as int), *ray, t_min, t_max).1 {
                    Some(b) => b,
                    None => start,
                },
                min_dist == match scan(self.objects@.subrange(0, i as int), *ray, t_min, t_max).1 {
                    Some(b) => b.t,
                    None => t_max,
                },
            decreases self.objects@.len() - i,
        {
            let object = &self.objects[i];
            assert(self.objects@.subrange(0, i as int + 1).drop_last() =~= self.objects@.subrange(0, i as int));
            if object.hit(ray, &mut tmp_rec, t_min, t_max) {
                has_hit = true;
                if tmp_rec.t.value < min_dist.value {
                    *record = tmp_rec;
                    min_dist = record.t;
                }
            }
            i = i + 1;
        }
        assert(self.objects@.subrange(0, i as int) =~= self.objects@);
        proof {
            let n = self.materials@.len();
            assert forall|j: int| 0 <= j < self.objects@.len() implies material_in(
                #[trigger] self.objects@[j].material(),
                n,
            ) by {
                assert(self.objects@[j].wf());
            }
            lemma_scan_material(self.objects@, *ray, t_min, t_max, n);
        }
        has_hit
    }
}

/// A ray within 0.01 of parallel to a plane (the dot product of its direction
/// and the plane's normal below 0.01 in magnitude) never hits the plane,
/// wherever it starts and whatever the range.
pub proof fn lemma_parallel_ray_misses_plane(plane: Plane, ray: Ray, t_min: FixedI32, t_max: FixedI32)
    requires
        ray.dir.spec_dot(plane.normal).spec_abs().value < PARALLEL_EPSILON_RAW,
    ensures
        plane.spec_hit(ray, t_min, t_max).is_none(),
{
}

/// A ray whose quadratic with the sphere has a negative discriminant (the
/// line misses the sphere) never hits it, whatever the range.
pub proof fn lemma_negative_discriminant_misses_sphere(sphere: Sphere, ray: Ray, t_min: FixedI32, t_max: FixedI32)
    requires
        sphere.quadratic(ray).2.value < 0,
    ensures
        sphere.spec_hit(ray, t_min, t_max).is_none(),
{
}

} // verus!
