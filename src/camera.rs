//! The camera: maps image-plane coordinates to rays.
use crate::fixed::{fx, spec_pi, FixedI32, PI_RAW};
use crate::ray::Ray;
use crate::vec3::{disk_draws, Vec3FI32, MAX_DRAWS};
use crate::rng::Rng;
use vstd::prelude::*;

verus! {

/// A camera's precomputed basis: where rays start, the viewport's top-left
/// corner and spans, and the lens radius and in-lens directions `u` and `v`.
#[derive(Clone, Copy, Debug)]
pub struct Camera {
    pub origin: Vec3FI32,
    pub top_left: Vec3FI32,
    pub horizontal: Vec3FI32,
    pub vertical: Vec3FI32,
    pub lens_radius: FixedI32,
    pub u: Vec3FI32,
    pub v: Vec3FI32,
}

/// Half the vertical field of view `vfov` (given in degrees), in radians:
/// `vfov * pi / 360`. The viewport height at unit distance is twice its tangent.
pub open spec fn fov_angle(vfov: FixedI32) -> FixedI32 {
    vfov.spec_mul(spec_pi()).div_int(360)
}

/// The backward axis: from `lookat` towards `lookfrom`, of unit length.
pub open spec fn back_axis(lookfrom: Vec3FI32, lookat: Vec3FI32) -> Vec3FI32 {
    lookfrom.spec_sub(lookat).spec_unit_vector()
}

/// The right axis: `vup x w`, of unit length.
pub open spec fn right_axis(vup: Vec3FI32, w: Vec3FI32) -> Vec3FI32 {
    vup.spec_cross(w).spec_unit_vector()
}

/// What a camera can be built from: a tangent and two normalizations that
/// do not divide by zero.
pub open spec fn camera_defined(lookfrom: Vec3FI32, lookat: Vec3FI32, vup: Vec3FI32, vfov: FixedI32) -> bool {
    &&& fov_angle(vfov).spec_cos().value != 0
    &&& lookfrom.spec_sub(lookat).spec_mag().value != 0
    &&& vup.spec_cross(back_axis(lookfrom, lookat)).spec_mag().value != 0
}

pub open spec fn spec_camera(
    lookfrom: Vec3FI32,
    lookat: Vec3FI32,
    vup: Vec3FI32,
    vfov: FixedI32,
    aspect_ratio: FixedI32,
    apeture: FixedI32,
    focus_dist: FixedI32,
) -> Camera {
    let viewport_height = fx(65536).mul_int(2).spec_mul(fov_angle(vfov).spec_tan());
    let viewport_width = aspect_ratio.spec_mul(viewport_height);
    let w = back_axis(lookfrom, lookat);
    let u = right_axis(vup, w);
    let v = w.spec_cross(u);
    let horizontal = u.scale(focus_dist).scale(viewport_width);
    let vertical = v.scale(focus_dist).scale(viewport_height);
    let two = fx(131072);
    Camera {
        origin: lookfrom,
        top_left: lookfrom.spec_sub(horizontal.div_scalar(two)).spec_add(vertical.div_scalar(two)).spec_sub(
            w.scale(focus_dist),
        ),
        horizontal,
        vertical,
        lens_radius: apeture.div_int(2),
        u,
        v,
    }
}

impl Camera {
    /// The viewport point at `s` across and `t` down.
    pub open spec fn target(self, s: FixedI32, t: FixedI32) -> Vec3FI32 {
        self.top_left.spec_add(self.horizontal.scale(s)).spec_sub(self.vertical.scale(t))
    }

    pub open spec fn spec_ray_noblur(self, s: FixedI32, t: FixedI32) -> Ray {
        Ray { origin: self.origin, dir: self.target(s, t).spec_sub(self.origin) }
    }

    /// The lens offset for a point `rd` of the unit disk.
    pub open spec fn lens_offset(self, rd: Vec3FI32) -> Vec3FI32 {
        let d = rd.scale(self.lens_radius);
        self.u.scale(d.x).spec_add(self.v.scale(d.y))
    }

    pub open spec fn spec_ray_blur(self, s: FixedI32, t: FixedI32, rd: Vec3FI32) -> Ray {
        let offset = self.lens_offset(rd);
        Ray {
            origin: self.origin.spec_add(offset),
            dir: self.target(s, t).spec_sub(self.origin).spec_sub(offset),
        }
    }

    /// A camera at `lookfrom` facing `lookat`, with `vup` upwards, a vertical
    /// field of view of `vfov` degrees, and a lens of diameter `apeture`
    /// focused at `focus_dist`.
    pub fn new(
        lookfrom: Vec3FI32,
        lookat: Vec3FI32,
        vup: Vec3FI32,
        vfov: FixedI32,
        aspect_ratio: FixedI32,
        apeture: FixedI32,
        focus_dist: FixedI32,
    ) -> (r: Self)
        requires
            camera_defined(lookfrom, lookat, vup, vfov),
        ensures
            r == spec_camera(lookfrom, lookat, vup, vfov, aspect_ratio, apeture, focus_dist),
    {
        let pi = FixedI32 { value: PI_RAW };
        let focal_length = FixedI32::new(1);
        let viewport_height = focal_length * 2 * (vfov * pi / 360).tan();
        let viewport_width = aspect_ratio * viewport_height;

        let w = (lookfrom - lookat).unit_vector();
        let u = vup.cross(w).unit_vector();
        let v = w.cross(u);

        let origin = lookfrom;
        let horizontal = u * focus_dist * viewport_width;
        let vertical = v * focus_dist * viewport_height;

        let two = FixedI32::new(2);
        let top_left = origin - horizontal / two + vertical / two - w * focus_dist;
        let lens_radius = apeture / 2;

        Camera { origin, top_left, horizontal, vertical, lens_radius, u, v }
    }

    /// The ray from the camera's origin through the viewport point `s` across
    /// and `t` down, both in `[0, 1)`.
    pub fn get_ray_noblur(&self, s: FixedI32, t: FixedI32) -> (r: Ray)
        ensures
            r == self.spec_ray_noblur(s, t),
    {
        Ray::new(self.origin, self.top_left + self.horizontal * s - self.vertical * t - self.origin)
    }

    /// As `get_ray_noblur`, from a point of the lens given by `rd`, a point of
    /// the unit disk.
    pub fn get_ray_blur_with(&self, s: FixedI32, t: FixedI32, rd: Vec3FI32) -> (r: Ray)
        ensures
            r == self.spec_ray_blur(s, t, rd),
    {
        let d = rd * self.lens_radius;
        let offset = self.u * d.x + self.v * d.y;
        Ray::new(
            self.origin + offset,
            self.top_left + self.horizontal * s - self.vertical * t - self.origin - offset,
        )
    }

    /// As `get_ray_noblur`, from a random point of the lens, for defocus blur.
    pub fn get_ray_blur(&self, rand: &mut Rng, s: FixedI32, t: FixedI32) -> (r: Ray)
        ensures
            r == self.spec_ray_blur(s, t, disk_draws(*old(rand), MAX_DRAWS as nat).0),
            *final(rand) == disk_draws(*old(rand), MAX_DRAWS as nat).1,
    {
        let rd = Vec3FI32::random_in_unit_disk(rand);
        self.get_ray_blur_with(s, t, rd)
    }
}

} // verus!
