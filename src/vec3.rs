//! Three-component vectors of fixed-point numbers.
use crate::fixed::{draw_unit, fx, FixedI32};
use crate::rng::Rng;
use vstd::prelude::*;

verus! {

/// A vector (or point, or color) with three components.
#[derive(Clone, Copy, Debug, PartialEq, Eq)]
pub struct Vec3<T> {
    pub x: T,
    pub y: T,
    pub z: T,
}

pub type Vec3FI32 = Vec3<FixedI32>;

/// The largest number of rejected draws before a sampler gives up.
pub const MAX_DRAWS: u32 = 1000;

/// The vector with every component `v`.
pub open spec fn splat(v: FixedI32) -> Vec3FI32 {
    Vec3 { x: v, y: v, z: v }
}

/// The zero vector, black as a color.
pub open spec fn zero_vec() -> Vec3FI32 {
    splat(fx(0))
}

impl<T: Copy> Vec3<T> {
    pub fn new(x: T, y: T, z: T) -> (r: Self)
        ensures
            r == (Vec3 { x, y, z }),
    {
        Vec3 { x, y, z }
    }
}

impl Vec3<FixedI32> {
    pub open spec fn spec_add(self, rhs: Vec3FI32) -> Vec3FI32 {
        Vec3 { x: self.x.spec_add(rhs.x), y: self.y.spec_add(rhs.y), z: self.z.spec_add(rhs.z) }
    }

    pub open spec fn spec_sub(self, rhs: Vec3FI32) -> Vec3FI32 {
        Vec3 { x: self.x.spec_sub(rhs.x), y: self.y.spec_sub(rhs.y), z: self.z.spec_sub(rhs.z) }
    }

    /// Componentwise product.
    pub open spec fn spec_mul(self, rhs: Vec3FI32) -> Vec3FI32 {
        Vec3 { x: self.x.spec_mul(rhs.x), y: self.y.spec_mul(rhs.y), z: self.z.spec_mul(rhs.z) }
    }

    /// Componentwise quotient.
    pub open spec fn spec_div(self, rhs: Vec3FI32) -> Vec3FI32 {
        Vec3 { x: self.x.spec_div(rhs.x), y: self.y.spec_div(rhs.y), z: self.z.spec_div(rhs.z) }
    }

    pub open spec fn add_scalar(self, t: FixedI32) -> Vec3FI32 {
        Vec3 { x: self.x.spec_add(t), y: self.y.spec_add(t), z: self.z.spec_add(t) }
    }

    pub open spec fn sub_scalar(self, t: FixedI32) -> Vec3FI32 {
        Vec3 { x: self.x.spec_sub(t), y: self.y.spec_sub(t), z: self.z.spec_sub(t) }
    }

    pub open spec fn scale(self, t: FixedI32) -> Vec3FI32 {
        Vec3 { x: self.x.spec_mul(t), y: self.y.spec_mul(t), z: self.z.spec_mul(t) }
    }

    pub open spec fn div_scalar(self, t: FixedI32) -> Vec3FI32 {
        Vec3 { x: self.x.spec_div(t), y: self.y.spec_div(t), z: self.z.spec_div(t) }
    }

    pub open spec fn spec_dot(self, rhs: Vec3FI32) -> FixedI32 {
        self.x.spec_mul(rhs.x).spec_add(self.y.spec_mul(rhs.y)).spec_add(self.z.spec_mul(rhs.z))
    }

    pub open spec fn spec_mag_squared(self) -> FixedI32 {
        self.spec_dot(self)
    }

    pub open spec fn spec_cross(self, rhs: Vec3FI32) -> Vec3FI32 {
        Vec3 {
            x: self.y.spec_mul(rhs.z).spec_sub(self.z.spec_mul(rhs.y)),
            y: self.z.spec_mul(rhs.x).spec_sub(self.x.spec_mul(rhs.z)),
            z: self.x.spec_mul(rhs.y).spec_sub(self.y.spec_mul(rhs.x)),
        }
    }

    pub open spec fn spec_mag(self) -> FixedI32 {
        self.spec_mag_squared().spec_sqrt()
    }

    pub open spec fn spec_unit_vector(self) -> Vec3FI32 {
        self.div_scalar(self.spec_mag())
    }

    /// Every component is below 0.001 (raw 65) in magnitude.
    pub open spec fn spec_near_zero(self) -> bool {
        &&& self.x.spec_abs().value < 65
        &&& self.y.spec_abs().value < 65
        &&& self.z.spec_abs().value < 65
    }

    /// A point of the sampled part of the unit ball: every component in
    /// `[0, 1)` and the squared length at most 1.
    pub open spec fn in_unit_ball(self) -> bool {
        &&& 0 <= self.x.value < 65536
        &&& 0 <= self.y.value < 65536
        &&& 0 <= self.z.value < 65536
        &&& self.spec_mag_squared().value <= 65536
    }

    /// A point of the sampled part of the unit disk in the `z = 0` plane.
    pub open spec fn in_unit_disk(self) -> bool {
        &&& self.in_unit_ball()
        &&& self.z.value == 0
    }

    pub fn mag_squared(self) -> (r: FixedI32)
        ensures
            r == self.spec_mag_squared(),
    {
        self.x * self.x + self.y * self.y + self.z * self.z
    }

    pub fn dot(self, rhs: Self) -> (r: FixedI32)
        ensures
            r == self.spec_dot(rhs),
    {
        self.x * rhs.x + self.y * rhs.y + self.z * rhs.z
    }

    pub fn cross(self, rhs: Self) -> (r: Self)
        ensures
            r == self.spec_cross(rhs),
    {
        let x = self.y * rhs.z - self.z * rhs.y;
        let y = self.z * rhs.x - self.x * rhs.z;
        let z = self.x * rhs.y - self.y * rhs.x;
        Vec3 { x, y, z }
    }

    /// Length, as the fixed-point square root of the squared length.
    pub fn mag(self) -> (r: FixedI32)
        ensures
            r == self.spec_mag(),
    {
        self.mag_squared().sqrt()
    }

    /// The vector divided by its length; the caller rules out a zero length.
    pub fn unit_vector(self) -> (r: Self)
        requires
            self.spec_mag().value != 0,
        ensures
            r == self.spec_unit_vector(),
    {
        self / self.mag()
    }

    pub fn near_zero(&self) -> (r: bool)
        ensures
            r == self.spec_near_zero(),
    {
        self.x.abs().value < 65 && self.y.abs().value < 65 && self.z.abs().value < 65
    }

    /// Rejection sampling: draws three numbers in `[0, 1)` until their squared
    /// length is at most 1. After `MAX_DRAWS` rejected draws it gives up with
    /// the origin, which lies in the ball too.
    pub fn random_in_unit_sphere(rand: &mut Rng) -> (r: Self)
        ensures
            (r, *final(rand)) == sphere_draws(*old(rand), MAX_DRAWS as nat),
            r.in_unit_ball(),
    {
        proof {
            lemma_sphere_draws_in_ball(*rand, MAX_DRAWS as nat);
        }
        let ghost start = *rand;
        let mut tries: u32 = 0;
        while tries < MAX_DRAWS
            invariant
                tries <= MAX_DRAWS,
                start == *old(rand),
                sphere_draws(start, MAX_DRAWS as nat) == sphere_draws(*rand, (MAX_DRAWS - tries) as nat),
            decreases MAX_DRAWS - tries,
        {
            let ghost g0 = *rand;
            let x = FixedI32::rand(rand);
            let ghost g1 = *rand;
            let y = FixedI32::rand(rand);
            let ghost g2 = *rand;
            let z = FixedI32::rand(rand);
            assert(draw_unit(g0) == (x, g1));
            assert(draw_unit(g1) == (y, g2));
            assert(draw_unit(g2) == (z, *rand));
            if let Some(v) = accept_draw(x, y, z) {
                assert(sphere_draws(g0, (MAX_DRAWS - tries) as nat) == (v, *rand));
                return v;
            }
            tries = tries + 1;
        }
        let zero = FixedI32 { value: 0 };
        Vec3 { x: zero, y: zero, z: zero }
    }

    /// Rejection sampling in the unit disk of the `z = 0` plane, as
    /// `random_in_unit_sphere` does in the ball, with two numbers per draw.
    pub fn random_in_unit_disk(rand: &mut Rng) -> (r: Self)
        ensures
            (r, *final(rand)) == disk_draws(*old(rand), MAX_DRAWS as nat),
            r.in_unit_disk(),
    {
        proof {
            lemma_disk_draws_in_disk(*rand, MAX_DRAWS as nat);
        }
        let ghost start = *rand;
        let zero = FixedI32 { value: 0 };
        let mut tries: u32 = 0;
        while tries < MAX_DRAWS
            invariant
                tries <= MAX_DRAWS,
                zero == fx(0),
                start == *old(rand),
                disk_draws(start, MAX_DRAWS as nat) == disk_draws(*rand, (MAX_DRAWS - tries) as nat),
            decreases MAX_DRAWS - tries,
        {
            let ghost g0 = *rand;
            let x = FixedI32::rand(rand);
            let ghost g1 = *rand;
            let y = FixedI32::rand(rand);
            assert(draw_unit(g0) == (x, g1));
            assert(draw_unit(g1) == (y, *rand));
            if let Some(v) = accept_draw(x, y, zero) {
                assert(disk_draws(g0, (MAX_DRAWS - tries) as nat) == (v, *rand));
                return v;
            }
            tries = tries + 1;
        }
        Vec3 { x: zero, y: zero, z: zero }
    }
}

/// The point `(x, y, z)` if its squared length is at most 1.
pub open spec fn spec_accept_draw(x: FixedI32, y: FixedI32, z: FixedI32) -> Option<Vec3FI32> {
    let v = Vec3 { x, y, z };
    if v.spec_mag_squared().value <= 65536 {
        Some(v)
    } else {
        None
    }
}

/// Keeps a drawn point if its squared length is at most 1.
pub fn accept_draw(x: FixedI32, y: FixedI32, z: FixedI32) -> (r: Option<Vec3FI32>)
    ensures
        r == spec_accept_draw(x, y, z),
{
    let v = Vec3 { x, y, z };
    if v.mag_squared().value <= 65536 {
        Some(v)
    } else {
        None
    }
}

/// Rejection sampling in the unit ball from `g` with at most `tries` draws of
/// three numbers in `[0, 1)`: the first point kept, or the origin; and the
/// generator after the draws.
pub open spec fn sphere_draws(g: Rng, tries: nat) -> (Vec3FI32, Rng)
    decreases tries,
{
    if tries == 0 {
        (zero_vec(), g)
    } else {
        let (x, g1) = draw_unit(g);
        let (y, g2) = draw_unit(g1);
        let (z, g3) = draw_unit(g2);
        match spec_accept_draw(x, y, z) {
            Some(v) => (v, g3),
            None => sphere_draws(g3, (tries - 1) as nat),
        }
    }
}

/// As `sphere_draws`, in the unit disk of the `z = 0` plane, with two numbers
/// per draw.
pub open spec fn disk_draws(g: Rng, tries: nat) -> (Vec3FI32, Rng)
    decreases tries,
{
    if tries == 0 {
        (zero_vec(), g)
    } else {
        let (x, g1) = draw_unit(g);
        let (y, g2) = draw_unit(g1);
        match spec_accept_draw(x, y, fx(0)) {
            Some(v) => (v, g2),
            None => disk_draws(g2, (tries - 1) as nat),
        }
    }
}

proof fn lemma_zero_in_ball()
    ensures
        zero_vec().in_unit_ball(),
{
    let z = fx(0);
    assert(z.value == 0);
    assert(z.spec_mul(z) == z);
    assert(z.spec_add(z) == z);
    assert(zero_vec().spec_mag_squared() == z);
}

proof fn lemma_sphere_draws_in_ball(g: Rng, tries: nat)
    ensures
        sphere_draws(g, tries).0.in_unit_ball(),
    decreases tries,
{
    if tries > 0 {
        let (x, g1) = draw_unit(g);
        let (y, g2) = draw_unit(g1);
        let (z, g3) = draw_unit(g2);
        lemma_sphere_draws_in_ball(g3, (tries - 1) as nat);
    } else {
        lemma_zero_in_ball();
    }
}

proof fn lemma_disk_draws_in_disk(g: Rng, tries: nat)
    ensures
        disk_draws(g, tries).0.in_unit_disk(),
    decreases tries,
{
    if tries > 0 {
        let (x, g1) = draw_unit(g);
        let (y, g2) = draw_unit(g1);
        lemma_disk_draws_in_disk(g2, (tries - 1) as nat);
    } else {
        lemma_zero_in_ball();
    }
}

/// The vector with every component `val`.
impl std::convert::From<FixedI32> for Vec3FI32 {
    fn from(val: FixedI32) -> Vec3FI32 {
        Vec3 { x: val, y: val, z: val }
    }
}

impl vstd::std_specs::convert::FromSpecImpl<FixedI32> for Vec3FI32 {
    open spec fn obeys_from_spec() -> bool {
        true
    }

    open spec fn from_spec(val: FixedI32) -> Vec3FI32 {
        splat(val)
    }
}

impl std::ops::Add for Vec3FI32 {
    type Output = Vec3FI32;

    fn add(self, rhs: Vec3FI32) -> Vec3FI32 {
        Vec3 { x: self.x + rhs.x, y: self.y + rhs.y, z: self.z + rhs.z }
    }
}

impl vstd::std_specs::ops::AddSpecImpl for Vec3FI32 {
    open spec fn obeys_add_spec() -> bool {
        true
    }

    open spec fn add_req(self, rhs: Vec3FI32) -> bool {
        true
    }

    open spec fn add_spec(self, rhs: Vec3FI32) -> Vec3FI32 {
        self.spec_add(rhs)
    }
}

impl std::ops::Add<FixedI32> for Vec3FI32 {
    type Output = Vec3FI32;

    fn add(self, rhs: FixedI32) -> Vec3FI32 {
        Vec3 { x: self.x + rhs, y: self.y + rhs, z: self.z + rhs }
    }
}

impl vstd::std_specs::ops::AddSpecImpl<FixedI32> for Vec3FI32 {
    open spec fn obeys_add_spec() -> bool {
        true
    }

    open spec fn add_req(self, rhs: FixedI32) -> bool {
        true
    }

    open spec fn add_spec(self, rhs: FixedI32) -> Vec3FI32 {
        self.add_scalar(rhs)
    }
}

impl std::ops::Sub for Vec3FI32 {
    type Output = Vec3FI32;

    fn sub(self, rhs: Vec3FI32) -> Vec3FI32 {
        Vec3 { x: self.x - rhs.x, y: self.y - rhs.y, z: self.z - rhs.z }
    }
}

impl vstd::std_specs::ops::SubSpecImpl for Vec3FI32 {
    open spec fn obeys_sub_spec() -> bool {
        true
    }

    open spec fn sub_req(self, rhs: Vec3FI32) -> bool {
        true
    }

    open spec fn sub_spec(self, rhs: Vec3FI32) -> Vec3FI32 {
        self.spec_sub(rhs)
    }
}

impl std::ops::Sub<FixedI32> for Vec3FI32 {
    type Output = Vec3FI32;

    fn sub(self, rhs: FixedI32) -> Vec3FI32 {
        Vec3 { x: self.x - rhs, y: self.y - rhs, z: self.z - rhs }
    }
}

impl vstd::std_specs::ops::SubSpecImpl<FixedI32> for Vec3FI32 {
    open spec fn obeys_sub_spec() -> bool {
        true
    }

    open spec fn sub_req(self, rhs: FixedI32) -> bool {
        true
    }

    open spec fn sub_spec(self, rhs: FixedI32) -> Vec3FI32 {
        self.sub_scalar(rhs)
    }
}

impl std::ops::Mul for Vec3FI32 {
    type Output = Vec3FI32;

    fn mul(self, rhs: Vec3FI32) -> Vec3FI32 {
        Vec3 { x: self.x * rhs.x, y: self.y * rhs.y, z: self.z * rhs.z }
    }
}

impl vstd::std_specs::ops::MulSpecImpl for Vec3FI32 {
    open spec fn obeys_mul_spec() -> bool {
        true
    }

    open spec fn mul_req(self, rhs: Vec3FI32) -> bool {
        true
    }

    open spec fn mul_spec(self, rhs: Vec3FI32) -> Vec3FI32 {
        self.spec_mul(rhs)
    }
}

impl std::ops::Mul<FixedI32> for Vec3FI32 {
    type Output = Vec3FI32;

    fn mul(self, rhs: FixedI32) -> Vec3FI32 {
        Vec3 { x: self.x * rhs, y: self.y * rhs, z: self.z * rhs }
    }
}

impl vstd::std_specs::ops::MulSpecImpl<FixedI32> for Vec3FI32 {
    open spec fn obeys_mul_spec() -> bool {
        true
    }

    open spec fn mul_req(self, rhs: FixedI32) -> bool {
        true
    }

    open spec fn mul_spec(self, rhs: FixedI32) -> Vec3FI32 {
        self.scale(rhs)
    }
}

impl std::ops::Div for Vec3FI32 {
    type Output = Vec3FI32;

    fn div(self, rhs: Vec3FI32) -> Vec3FI32 {
        Vec3 { x: self.x / rhs.x, y: self.y / rhs.y, z: self.z / rhs.z }
    }
}

impl vstd::std_specs::ops::DivSpecImpl for Vec3FI32 {
    open spec fn obeys_div_spec() -> bool {
        true
    }

    /// Division by zero is left out.
    open spec fn div_req(self, rhs: Vec3FI32) -> bool {
        rhs.x.value != 0 && rhs.y.value != 0 && rhs.z.value != 0
    }

    open spec fn div_spec(self, rhs: Vec3FI32) -> Vec3FI32 {
        self.spec_div(rhs)
    }
}

impl std::ops::Div<FixedI32> for Vec3FI32 {
    type Output = Vec3FI32;

    fn div(self, rhs: FixedI32) -> Vec3FI32 {
        Vec3 { x: self.x / rhs, y: self.y / rhs, z: self.z / rhs }
    }
}

impl vstd::std_specs::ops::DivSpecImpl<FixedI32> for Vec3FI32 {
    open spec fn obeys_div_spec() -> bool {
        true
    }

    /// Division by zero is left out.
    open spec fn div_req(self, rhs: FixedI32) -> bool {
        rhs.value != 0
    }

    open spec fn div_spec(self, rhs: FixedI32) -> Vec3FI32 {
        self.div_scalar(rhs)
    }
}

impl std::ops::AddAssign for Vec3FI32 {
    fn add_assign(&mut self, rhs: Vec3FI32)
        ensures
            *final(self) == old(self).spec_add(rhs),
    {
        *self = *self + rhs;
    }
}

impl std::ops::SubAssign for Vec3FI32 {
    fn sub_assign(&mut self, rhs: Vec3FI32)
        ensures
            *final(self) == old(self).spec_sub(rhs),
    {
        *self = *self - rhs;
    }
}

impl std::ops::MulAssign for Vec3FI32 {
    fn mul_assign(&mut self, rhs: Vec3FI32)
        ensures
            *final(self) == old(self).spec_mul(rhs),
    {
        *self = *self * rhs;
    }
}

} // verus!
