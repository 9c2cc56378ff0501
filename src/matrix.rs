//! 3x3 matrices of fixed-point numbers, used to map hit points into a
//! primitive's own coordinates.
use crate::fixed::FixedI32;
use crate::vec3::{Vec3, Vec3FI32};
use std::ops::Neg;
use vstd::prelude::*;

verus! {

/// Nine entries in row-major order.
#[derive(Clone, Copy, Debug)]
pub struct Matrix3x3<T> {
    pub state: [T; 9],
}

pub type Matrix3x3FI32 = Matrix3x3<FixedI32>;

impl<T: Copy> Matrix3x3<T> {
    pub fn new(state: [T; 9]) -> (r: Self)
        ensures
            r.state@ == state@,
    {
        Matrix3x3 { state }
    }
}

/// The product of entries `i`, `j` and `k` of `s`, multiplied left to right.
pub open spec fn triple(s: Seq<FixedI32>, i: int, j: int, k: int) -> FixedI32 {
    s[i].spec_mul(s[j]).spec_mul(s[k])
}

/// The determinant of the row-major entries `s`, by the rule of Sarrus.
pub open spec fn det_of(s: Seq<FixedI32>) -> FixedI32 {
    triple(s, 0, 4, 8).spec_add(triple(s, 1, 5, 6)).spec_add(triple(s, 2, 3, 7)).spec_sub(
        triple(s, 2, 4, 6),
    ).spec_sub(triple(s, 1, 3, 8)).spec_sub(triple(s, 0, 5, 7))
}

/// `s[i] * s[j] - s[k] * s[l]`.
pub open spec fn minor(s: Seq<FixedI32>, i: int, j: int, k: int, l: int) -> FixedI32 {
    s[i].spec_mul(s[j]).spec_sub(s[k].spec_mul(s[l]))
}

/// The adjugate (the transposed matrix of cofactors) of `s`, row-major.
pub open spec fn adjugate_of(s: Seq<FixedI32>) -> Seq<FixedI32> {
    let a = minor(s, 4, 8, 5, 7);
    let b = minor(s, 3, 8, 5, 6).spec_neg();
    let c = minor(s, 3, 7, 4, 6);
    let d = minor(s, 1, 8, 2, 7).spec_neg();
    let e = minor(s, 0, 8, 2, 6);
    let f = minor(s, 0, 7, 1, 6).spec_neg();
    let g = minor(s, 1, 5, 2, 4);
    let h = minor(s, 0, 5, 2, 3).spec_neg();
    let i = minor(s, 0, 4, 1, 3);
    seq![a, d, g, b, e, h, c, f, i]
}

/// The inverse of `s`: its adjugate divided entrywise by its determinant.
pub open spec fn inverse_of(s: Seq<FixedI32>) -> Seq<FixedI32> {
    adjugate_of(s).map_values(|v: FixedI32| v.spec_div(det_of(s)))
}

/// Row `r` of `s` times the vector `v`.
pub open spec fn row_times(s: Seq<FixedI32>, r: int, v: Vec3FI32) -> FixedI32 {
    v.x.spec_mul(s[3 * r]).spec_add(v.y.spec_mul(s[3 * r + 1])).spec_add(v.z.spec_mul(s[3 * r + 2]))
}

/// The product of the row-major matrix `s` and the vector `v`.
pub open spec fn mul_vec_of(s: Seq<FixedI32>, v: Vec3FI32) -> Vec3FI32 {
    Vec3 { x: row_times(s, 0, v), y: row_times(s, 1, v), z: row_times(s, 2, v) }
}

impl Matrix3x3<FixedI32> {
    pub open spec fn spec_det(self) -> FixedI32 {
        det_of(self.state@)
    }

    pub open spec fn spec_invert(self) -> Seq<FixedI32> {
        inverse_of(self.state@)
    }

    pub open spec fn spec_mul_vec(self, v: Vec3FI32) -> Vec3FI32 {
        mul_vec_of(self.state@, v)
    }

    pub fn det(self) -> (r: FixedI32)
        ensures
            r == self.spec_det(),
    {
        let s = self.state;
        s[0] * s[4] * s[8] + s[1] * s[5] * s[6] + s[2] * s[3] * s[7] - s[2] * s[4] * s[6] - s[1]
            * s[3] * s[8] - s[0] * s[5] * s[7]
    }

    /// The inverse by the adjugate; the determinant must not be zero.
    pub fn invert(self) -> (r: Self)
        requires
            self.spec_det().value != 0,
        ensures
            r.state@ == self.spec_invert(),
    {
        let s = self.state;
        let a = s[4] * s[8] - s[5] * s[7];
        let b = (s[3] * s[8] - s[5] * s[6]).neg();
        let c = s[3] * s[7] - s[4] * s[6];

        let d = (s[1] * s[8] - s[2] * s[7]).neg();
        let e = s[0] * s[8] - s[2] * s[6];
        let f = (s[0] * s[7] - s[1] * s[6]).neg();

        let g = s[1] * s[5] - s[2] * s[4];
        let h = (s[0] * s[5] - s[2] * s[3]).neg();
        let i = s[0] * s[4] - s[1] * s[3];

        let adj = Matrix3x3::new([a, d, g, b, e, h, c, f, i]);
        assert(adj.state@ =~= adjugate_of(self.state@));
        adj.div(self.det())
    }

    /// Every entry divided by `rhs`, which must not be zero.
    pub fn div(self, rhs: FixedI32) -> (r: Self)
        requires
            rhs.value != 0,
        ensures
            r.state@ == self.state@.map_values(|v: FixedI32| v.spec_div(rhs)),
    {
        let mut state = self.state;
        let mut i: usize = 0;
        while i < 9
            invariant
                i <= 9,
                rhs.value != 0,
                state@.len() == 9,
                forall|j: int| 0 <= j < i ==> state@[j] == self.state@[j].spec_div(rhs),
                forall|j: int| i <= j < 9 ==> state@[j] == self.state@[j],
            decreases 9 - i,
        {
            let v = state[i] / rhs;
            state[i] = v;
            i = i + 1;
        }
        let r = Matrix3x3 { state };
        assert(r.state@ =~= self.state@.map_values(|v: FixedI32| v.spec_div(rhs)));
        r
    }
}

/// Matrix-vector product.
impl std::ops::Mul<Vec3FI32> for Matrix3x3FI32 {
    type Output = Vec3FI32;

    fn mul(self, rhs: Vec3FI32) -> Vec3FI32 {
        let s = self.state;
        Vec3 {
            x: rhs.x * s[0] + rhs.y * s[1] + rhs.z * s[2],
            y: rhs.x * s[3] + rhs.y * s[4] + rhs.z * s[5],
            z: rhs.x * s[6] + rhs.y * s[7] + rhs.z * s[8],
        }
    }
}

impl vstd::std_specs::ops::MulSpecImpl<Vec3FI32> for Matrix3x3FI32 {
    open spec fn obeys_mul_spec() -> bool {
        true
    }

    open spec fn mul_req(self, rhs: Vec3FI32) -> bool {
        true
    }

    open spec fn mul_spec(self, rhs: Vec3FI32) -> Vec3FI32 {
        self.spec_mul_vec(rhs)
    }
}

} // verus!
