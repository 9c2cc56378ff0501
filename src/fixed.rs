//! Signed 16.16 fixed-point numbers and their arithmetic.
use crate::rng::Rng;
use vstd::prelude::*;

verus! {

/// Rust's truncating division (rounds toward zero); `b` must not be zero.
pub open spec fn div_trunc(a: int, b: int) -> int {
    let q = abs(a) / abs(b);
    if (a < 0) != (b < 0) {
        -q
    } else {
        q
    }
}

/// Rust's remainder: its sign follows the dividend; `b` must not be zero.
pub open spec fn rem_trunc(a: int, b: int) -> int {
    let m = abs(a) % abs(b);
    if a < 0 {
        -m
    } else {
        m
    }
}

pub open spec fn abs(a: int) -> int {
    if a < 0 {
        -a
    } else {
        a
    }
}

/// `-1`, `0` or `1` after the sign of `a`.
pub open spec fn signum(a: int) -> int {
    if a < 0 {
        -1
    } else if a == 0 {
        0
    } else {
        1
    }
}

pub open spec fn pow10(n: nat) -> nat
    decreases n,
{
    if n == 0 {
        1
    } else {
        10 * pow10((n - 1) as nat)
    }
}

/// Truncating division on machine integers.
pub(crate) fn i64_div_trunc(a: i64, b: i64) -> (q: i64)
    requires
        b != 0,
        -0x4000_0000_0000_0000 <= a <= 0x4000_0000_0000_0000,
    ensures
        q == div_trunc(a as int, b as int),
        abs(q as int) <= abs(a as int),
{
    let na: u64 = if a < 0 { (-a) as u64 } else { a as u64 };
    let nb: u64 = if b < 0 {
        if b == i64::MIN { 0x8000_0000_0000_0000u64 } else { (-b) as u64 }
    } else {
        b as u64
    };
    let m: u64 = na / nb;
    assert(m <= na) by (nonlinear_arith)
        requires m == na / nb, nb >= 1;
    if (a < 0) != (b < 0) {
        -(m as i64)
    } else {
        m as i64
    }
}

/// The number in `[0, 1)` whose fraction is the low 16 bits of `u`.
pub open spec fn spec_unit_from_bits(u: u32) -> FixedI32 {
    FixedI32 { value: (u % 65536) as i32 }
}

/// A number in `[0, 1)` drawn from `g`, and the generator after the draw.
pub open spec fn draw_unit(g: Rng) -> (FixedI32, Rng) {
    (spec_unit_from_bits(g.spec_next().0), g.spec_next().1)
}

/// The number in `[0, 1)` whose fraction is the low 16 bits of `u`.
pub fn unit_from_bits(u: u32) -> (r: FixedI32)
    ensures
        r == spec_unit_from_bits(u),
        0 <= r.value < 65536,
{
    FixedI32 { value: (u % 65536) as i32 }
}

/// A signed number with 16 integer and 16 fractional bits, stored as the
/// raw integer `value`, which stands for `value / 2^16`.
///
/// Arithmetic wraps in two's complement on overflow.
#[derive(Clone, Copy, Debug, PartialEq, Eq, Structural, PartialOrd, Ord)]
pub struct FixedI32 {
    pub value: i32,
}

/// The fixed-point number whose raw encoding is `raw`, truncated to 32 bits.
pub open spec fn fx(raw: int) -> FixedI32 {
    FixedI32 { value: raw as i32 }
}

/// Raw encoding of pi, 3.14159 to five decimal places.
pub const PI_RAW: i32 = 205887;

pub open spec fn spec_pi() -> FixedI32 {
    FixedI32 { value: PI_RAW }
}

impl FixedI32 {
    /// The integer part, rounded toward negative infinity (an arithmetic shift by 16).
    pub open spec fn floor_int(self) -> int {
        self.value as int / 65536
    }

    pub open spec fn spec_add(self, rhs: FixedI32) -> FixedI32 {
        fx(self.value + rhs.value)
    }

    pub open spec fn spec_sub(self, rhs: FixedI32) -> FixedI32 {
        fx(self.value - rhs.value)
    }

    pub open spec fn spec_neg(self) -> FixedI32 {
        fx(-self.value)
    }

    /// The exact 64-bit product shifted right by 16 bits.
    pub open spec fn spec_mul(self, rhs: FixedI32) -> FixedI32 {
        fx((self.value * rhs.value) / 65536)
    }

    /// The dividend shifted left by 16 bits in 64 bits, divided with truncation.
    pub open spec fn spec_div(self, rhs: FixedI32) -> FixedI32 {
        fx(div_trunc(self.value * 65536, rhs.value as int))
    }

    pub open spec fn add_int(self, rhs: i32) -> FixedI32 {
        fx(self.value + (rhs * 65536) as i32)
    }

    pub open spec fn sub_int(self, rhs: i32) -> FixedI32 {
        fx(self.value - (rhs * 65536) as i32)
    }

    pub open spec fn mul_int(self, rhs: int) -> FixedI32 {
        fx(self.value * rhs)
    }

    pub open spec fn div_int(self, rhs: int) -> FixedI32 {
        fx(div_trunc(self.value as int, rhs))
    }

    pub open spec fn spec_modulo(self, modulus: FixedI32) -> FixedI32 {
        fx(rem_trunc(self.value as int, modulus.value as int))
    }

    pub open spec fn spec_abs(self) -> FixedI32 {
        fx(abs(self.value as int))
    }

    /// `self` multiplied `n` times into 1.
    pub open spec fn spec_pow(self, n: nat) -> FixedI32
        decreases n,
    {
        if n == 0 {
            fx(65536)
        } else {
            self.spec_pow((n - 1) as nat).spec_mul(self)
        }
    }

    /// The odd Taylor polynomial of sine through degree 7.
    pub open spec fn taylor_sin(r: FixedI32) -> FixedI32 {
        r.spec_sub(r.spec_pow(3).div_int(6)).spec_add(r.spec_pow(5).div_int(120)).spec_sub(
            r.spec_pow(7).div_int(5040),
        )
    }

    /// Sine: the magnitude is reduced modulo 2 pi, then into [0, pi/2] with the
    /// sign kept aside, and the Taylor polynomial is applied.
    pub open spec fn spec_sin(self) -> FixedI32 {
        let sign = signum(self.value as int);
        let r0 = self.mul_int(sign).spec_modulo(spec_pi().mul_int(2));
        let sign1 = if r0.value >= PI_RAW { -sign } else { sign };
        let r1 = if r0.value >= PI_RAW { r0.spec_sub(spec_pi()) } else { r0 };
        let r2 = if r1.value >= spec_pi().div_int(2).value { spec_pi().spec_sub(r1) } else { r1 };
        Self::taylor_sin(r2).mul_int(sign1)
    }

    pub open spec fn spec_cos(self) -> FixedI32 {
        spec_pi().div_int(2).spec_add(self).spec_sin()
    }

    pub open spec fn spec_tan(self) -> FixedI32 {
        self.spec_sin().spec_div(self.spec_cos())
    }

    /// One Newton step towards the square root of `2 * half`; a zero iterate is kept.
    pub open spec fn newton_step(half: FixedI32, x: FixedI32) -> FixedI32 {
        if x.value == 0 {
            x
        } else {
            x.div_int(2).spec_add(half.spec_div(x))
        }
    }

    /// The iterate after `n` Newton steps from 1.
    pub open spec fn newton(half: FixedI32, n: nat) -> FixedI32
        decreases n,
    {
        if n == 0 {
            fx(65536)
        } else {
            Self::newton_step(half, Self::newton(half, (n - 1) as nat))
        }
    }

    /// Five Newton steps from 1 towards the square root.
    pub open spec fn spec_sqrt(self) -> FixedI32 {
        Self::newton(self.div_int(2), 5)
    }

    /// Clamps on the integer part: at or below `begin` gives `begin`, at or above
    /// `end` gives `end`, otherwise `self`.
    pub open spec fn spec_clamp(self, begin: i32, end: i32) -> FixedI32 {
        if self.floor_int() <= begin {
            fx(begin * 65536)
        } else if self.floor_int() >= end {
            fx(end * 65536)
        } else {
            self
        }
    }

    /// The fixed-point value of the integer `value` (bits beyond 16 are lost).
    pub fn new(value: i32) -> (r: Self)
        ensures
            r == fx(value * 65536),
    {
        FixedI32 { value: #[verifier::truncate] (((value as i64) * 65536) as i32) }
    }

    /// The raw value whose integer part is `whole` and whose fractional bits are `frac`.
    pub fn from_components(whole: i16, frac: u16) -> (r: Self)
        ensures
            r.value == whole * 65536 + frac,
    {
        FixedI32 { value: (whole as i32) * 65536 + (frac as i32) }
    }

    /// The raw value `(whole << 16) | ((frac << 16) / 10^frac_mag)`: `frac` is
    /// read as `frac_mag` decimal places.
    pub fn from_dec(whole: i16, frac: u16, frac_mag: u8) -> (r: Self)
        requires
            frac_mag <= 9,
        ensures
            r.value == (((whole * 65536) as i32) | (div_trunc(
                (frac * 65536) as i32 as int,
                pow10(frac_mag as nat) as int,
            ) as i32)),
    {
        let mut p: i32 = 1;
        let mut k: u8 = 0;
        while k < frac_mag
            invariant
                k <= frac_mag <= 9,
                p == pow10(k as nat),
                1 <= p <= 1_000_000_000,
            decreases frac_mag - k,
        {
            proof {
                assert(pow10((k + 1) as nat) == 10 * pow10(k as nat));
                if k < 9 {
                    lemma_pow10_bound(k as nat);
                }
            }
            p = p * 10;
            k = k + 1;
        }
        let shifted: i32 = #[verifier::truncate] (((frac as i64) * 65536) as i32);
        let q: i64 = i64_div_trunc(shifted as i64, p as i64);
        let whole_bits: i32 = (whole as i32) * 65536;
        FixedI32 { value: whole_bits | (q as i32) }
    }

    /// Truncating remainder of the raw values.
    pub fn modulo(self, modulus: Self) -> (r: Self)
        requires
            modulus.value != 0,
        ensures
            r == self.spec_modulo(modulus),
    {
        let na: u32 = if self.value < 0 {
            (-(self.value as i64)) as u32
        } else {
            self.value as u32
        };
        let nb: u32 = if modulus.value < 0 {
            (-(modulus.value as i64)) as u32
        } else {
            modulus.value as u32
        };
        let m: u32 = na % nb;
        let v: i64 = if self.value < 0 { -(m as i64) } else { m as i64 };
        FixedI32 { value: v as i32 }
    }

    /// `self` raised to the `n`th power by repeated multiplication.
    pub fn pow(self, n: u32) -> (r: Self)
        ensures
            r == self.spec_pow(n as nat),
    {
        let mut accum = FixedI32::new(1);
        let mut i: u32 = 0;
        while i < n
            invariant
                i <= n,
                accum == self.spec_pow(i as nat),
            decreases n - i,
        {
            accum = accum * self;
            i = i + 1;
        }
        accum
    }

    /// Approximate sine of an angle in radians.
    pub fn sin(self) -> (r: Self)
        ensures
            r == self.spec_sin(),
    {
        let pi = FixedI32 { value: PI_RAW };
        let mut sign: i32 = if self.value < 0 {
            -1
        } else if self.value == 0 {
            0
        } else {
            1
        };
        let mut r = (self * sign).modulo(pi * 2);
        if r.value >= pi.value {
            sign = -sign;
            r = r - pi;
        }
        if r.value >= (pi / 2).value {
            r = pi - r;
        }
        (r - r.pow(3) / 6 + r.pow(5) / 120 - r.pow(7) / 5040) * sign
    }

    /// Approximate cosine, as the sine of `pi/2 + self`.
    pub fn cos(self) -> (r: Self)
        ensures
            r == self.spec_cos(),
    {
        let pi = FixedI32 { value: PI_RAW };
        (pi / 2 + self).sin()
    }

    /// Approximate tangent, as sine over cosine.
    pub fn tan(self) -> (r: Self)
        requires
            self.spec_cos().value != 0,
        ensures
            r == self.spec_tan(),
    {
        self.sin() / self.cos()
    }

    /// Square root by five Newton steps from 1, without a convergence test.
    /// The operand must not be negative for the result to mean anything.
    pub fn sqrt(self) -> (r: Self)
        ensures
            r == self.spec_sqrt(),
    {
        let half = self / 2;
        let mut x = FixedI32::new(1);
        let mut i: u32 = 0;
        while i < 5
            invariant
                i <= 5,
                half == self.div_int(2),
                x == Self::newton(half, i as nat),
            decreases 5 - i,
        {
            if x.value != 0 {
                x = x / 2 + half / x;
            }
            i = i + 1;
        }
        x
    }

    /// Clamps the integer part into `[begin, end]`.
    pub fn clamp(self, begin: i32, end: i32) -> (r: Self)
        ensures
            r == self.spec_clamp(begin, end),
    {
        let v = self.value;
        assert(v >> 16i32 == v / 65536) by (bit_vector);
        let w: i32 = v >> 16i32;
        if w <= begin {
            FixedI32::new(begin)
        } else if w >= end {
            FixedI32::new(end)
        } else {
            self
        }
    }

    /// A number in `[0, 1)`: the low 16 bits of the generator's next output
    /// as the fraction.
    pub fn rand(rng: &mut Rng) -> (r: Self)
        ensures
            (r, *final(rng)) == draw_unit(*old(rng)),
    {
        let u: u32 = rng.rand_u32();
        unit_from_bits(u)
    }

    /// The integer part, rounded toward negative infinity.
    pub fn to_int(self) -> (r: i32)
        ensures
            r == self.floor_int(),
    {
        let v = self.value;
        assert(v >> 16i32 == v / 65536) by (bit_vector);
        v >> 16i32
    }

    /// Absolute value; the most negative value stays as it is.
    pub fn abs(self) -> (r: Self)
        ensures
            r == self.spec_abs(),
    {
        if self.value < 0 {
            FixedI32 { value: #[verifier::truncate] ((-(self.value as i64)) as i32) }
        } else {
            self
        }
    }
}

impl std::ops::Add for FixedI32 {
    type Output = FixedI32;

    fn add(self, rhs: FixedI32) -> FixedI32 {
        FixedI32 { value: #[verifier::truncate] (((self.value as i64) + (rhs.value as i64)) as i32) }
    }
}

impl vstd::std_specs::ops::AddSpecImpl for FixedI32 {
    open spec fn obeys_add_spec() -> bool {
        true
    }

    open spec fn add_req(self, rhs: FixedI32) -> bool {
        true
    }

    open spec fn add_spec(self, rhs: FixedI32) -> FixedI32 {
        self.spec_add(rhs)
    }
}

impl std::ops::AddAssign for FixedI32 {
    fn add_assign(&mut self, rhs: FixedI32)
        ensures
            *final(self) == old(self).spec_add(rhs),
    {
        *self = *self + rhs;
    }
}

impl std::ops::SubAssign for FixedI32 {
    fn sub_assign(&mut self, rhs: FixedI32)
        ensures
            *final(self) == old(self).spec_sub(rhs),
    {
        *self = *self - rhs;
    }
}

impl std::ops::MulAssign for FixedI32 {
    fn mul_assign(&mut self, rhs: FixedI32)
        ensures
            *final(self) == old(self).spec_mul(rhs),
    {
        *self = *self * rhs;
    }
}

impl std::ops::Add<i32> for FixedI32 {
    type Output = FixedI32;

    fn add(self, rhs: i32) -> FixedI32 {
        let shifted: i32 = #[verifier::truncate] (((rhs as i64) * 65536) as i32);
        FixedI32 { value: #[verifier::truncate] (((self.value as i64) + (shifted as i64)) as i32) }
    }
}

impl vstd::std_specs::ops::AddSpecImpl<i32> for FixedI32 {
    open spec fn obeys_add_spec() -> bool {
        true
    }

    open spec fn add_req(self, rhs: i32) -> bool {
        true
    }

    open spec fn add_spec(self, rhs: i32) -> FixedI32 {
        self.add_int(rhs)
    }
}

impl std::ops::Sub for FixedI32 {
    type Output = FixedI32;

    fn sub(self, rhs: FixedI32) -> FixedI32 {
        FixedI32 { value: #[verifier::truncate] (((self.value as i64) - (rhs.value as i64)) as i32) }
    }
}

impl vstd::std_specs::ops::SubSpecImpl for FixedI32 {
    open spec fn obeys_sub_spec() -> bool {
        true
    }

    open spec fn sub_req(self, rhs: FixedI32) -> bool {
        true
    }

    open spec fn sub_spec(self, rhs: FixedI32) -> FixedI32 {
        self.spec_sub(rhs)
    }
}

impl std::ops::Sub<i32> for FixedI32 {
    type Output = FixedI32;

    fn sub(self, rhs: i32) -> FixedI32 {
        let shifted: i32 = #[verifier::truncate] (((rhs as i64) * 65536) as i32);
        FixedI32 { value: #[verifier::truncate] (((self.value as i64) - (shifted as i64)) as i32) }
    }
}

impl vstd::std_specs::ops::SubSpecImpl<i32> for FixedI32 {
    open spec fn obeys_sub_spec() -> bool {
        true
    }

    open spec fn sub_req(self, rhs: i32) -> bool {
        true
    }

    open spec fn sub_spec(self, rhs: i32) -> FixedI32 {
        self.sub_int(rhs)
    }
}

impl std::ops::Neg for FixedI32 {
    type Output = FixedI32;

    fn neg(self) -> FixedI32 {
        FixedI32 { value: #[verifier::truncate] ((-(self.value as i64)) as i32) }
    }
}

impl vstd::std_specs::ops::NegSpecImpl for FixedI32 {
    open spec fn obeys_neg_spec() -> bool {
        true
    }

    open spec fn neg_req(self) -> bool {
        true
    }

    open spec fn neg_spec(self) -> FixedI32 {
        self.spec_neg()
    }
}

impl std::ops::Mul for FixedI32 {
    type Output = FixedI32;

    fn mul(self, rhs: FixedI32) -> FixedI32 {
        proof {
            lemma_i32_product_bound(self.value, rhs.value);
        }
        let res: i64 = (self.value as i64) * (rhs.value as i64);
        assert(res >> 16i64 == res / 65536) by (bit_vector);
        FixedI32 { value: #[verifier::truncate] ((res >> 16i64) as i32) }
    }
}

impl vstd::std_specs::ops::MulSpecImpl for FixedI32 {
    open spec fn obeys_mul_spec() -> bool {
        true
    }

    open spec fn mul_req(self, rhs: FixedI32) -> bool {
        true
    }

    open spec fn mul_spec(self, rhs: FixedI32) -> FixedI32 {
        self.spec_mul(rhs)
    }
}

impl std::ops::Mul<i32> for FixedI32 {
    type Output = FixedI32;

    fn mul(self, rhs: i32) -> FixedI32 {
        proof {
            lemma_i32_product_bound(self.value, rhs);
        }
        FixedI32 { value: #[verifier::truncate] (((self.value as i64) * (rhs as i64)) as i32) }
    }
}

impl vstd::std_specs::ops::MulSpecImpl<i32> for FixedI32 {
    open spec fn obeys_mul_spec() -> bool {
        true
    }

    open spec fn mul_req(self, rhs: i32) -> bool {
        true
    }

    open spec fn mul_spec(self, rhs: i32) -> FixedI32 {
        self.mul_int(rhs as int)
    }
}

impl std::ops::Div for FixedI32 {
    type Output = FixedI32;

    fn div(self, rhs: FixedI32) -> FixedI32 {
        let q: i64 = i64_div_trunc((self.value as i64) * 65536, rhs.value as i64);
        FixedI32 { value: #[verifier::truncate] (q as i32) }
    }
}

impl vstd::std_specs::ops::DivSpecImpl for FixedI32 {
    open spec fn obeys_div_spec() -> bool {
        true
    }

    /// Division by zero is left out.
    open spec fn div_req(self, rhs: FixedI32) -> bool {
        rhs.value != 0
    }

    open spec fn div_spec(self, rhs: FixedI32) -> FixedI32 {
        self.spec_div(rhs)
    }
}

impl std::ops::Div<i32> for FixedI32 {
    type Output = FixedI32;

    fn div(self, rhs: i32) -> FixedI32 {
        let q: i64 = i64_div_trunc(self.value as i64, rhs as i64);
        FixedI32 { value: #[verifier::truncate] (q as i32) }
    }
}

impl vstd::std_specs::ops::DivSpecImpl<i32> for FixedI32 {
    open spec fn obeys_div_spec() -> bool {
        true
    }

    /// Division by zero is left out.
    open spec fn div_req(self, rhs: i32) -> bool {
        rhs != 0
    }

    open spec fn div_spec(self, rhs: i32) -> FixedI32 {
        self.div_int(rhs as int)
    }
}

impl std::convert::From<i32> for FixedI32 {
    fn from(value: i32) -> FixedI32 {
        FixedI32::new(value)
    }
}

impl vstd::std_specs::convert::FromSpecImpl<i32> for FixedI32 {
    open spec fn obeys_from_spec() -> bool {
        true
    }

    open spec fn from_spec(value: i32) -> FixedI32 {
        fx((value as i32) * 65536)
    }
}

impl std::convert::From<u32> for FixedI32 {
    fn from(value: u32) -> FixedI32 {
        FixedI32::new(#[verifier::truncate] (value as i32))
    }
}

impl vstd::std_specs::convert::FromSpecImpl<u32> for FixedI32 {
    open spec fn obeys_from_spec() -> bool {
        true
    }

    open spec fn from_spec(value: u32) -> FixedI32 {
        fx((value as i32) * 65536)
    }
}

impl std::convert::From<i64> for FixedI32 {
    fn from(value: i64) -> FixedI32 {
        FixedI32::new(#[verifier::truncate] (value as i32))
    }
}

impl vstd::std_specs::convert::FromSpecImpl<i64> for FixedI32 {
    open spec fn obeys_from_spec() -> bool {
        true
    }

    open spec fn from_spec(value: i64) -> FixedI32 {
        fx((value as i32) * 65536)
    }
}

impl std::convert::From<u64> for FixedI32 {
    fn from(value: u64) -> FixedI32 {
        FixedI32::new(#[verifier::truncate] (value as i32))
    }
}

impl vstd::std_specs::convert::FromSpecImpl<u64> for FixedI32 {
    open spec fn obeys_from_spec() -> bool {
        true
    }

    open spec fn from_spec(value: u64) -> FixedI32 {
        fx((value as i32) * 65536)
    }
}

impl std::convert::From<i16> for FixedI32 {
    fn from(value: i16) -> FixedI32 {
        FixedI32::new(#[verifier::truncate] (value as i32))
    }
}

impl vstd::std_specs::convert::FromSpecImpl<i16> for FixedI32 {
    open spec fn obeys_from_spec() -> bool {
        true
    }

    open spec fn from_spec(value: i16) -> FixedI32 {
        fx((value as i32) * 65536)
    }
}

impl std::convert::From<u16> for FixedI32 {
    fn from(value: u16) -> FixedI32 {
        FixedI32::new(#[verifier::truncate] (value as i32))
    }
}

impl vstd::std_specs::convert::FromSpecImpl<u16> for FixedI32 {
    open spec fn obeys_from_spec() -> bool {
        true
    }

    open spec fn from_spec(value: u16) -> FixedI32 {
        fx((value as i32) * 65536)
    }
}

impl std::convert::From<i8> for FixedI32 {
    fn from(value: i8) -> FixedI32 {
        FixedI32::new(#[verifier::truncate] (value as i32))
    }
}

impl vstd::std_specs::convert::FromSpecImpl<i8> for FixedI32 {
    open spec fn obeys_from_spec() -> bool {
        true
    }

    open spec fn from_spec(value: i8) -> FixedI32 {
        fx((value as i32) * 65536)
    }
}

impl std::convert::From<u8> for FixedI32 {
    fn from(value: u8) -> FixedI32 {
        FixedI32::new(#[verifier::truncate] (value as i32))
    }
}

impl vstd::std_specs::convert::FromSpecImpl<u8> for FixedI32 {
    open spec fn obeys_from_spec() -> bool {
        true
    }

    open spec fn from_spec(value: u8) -> FixedI32 {
        fx((value as i32) * 65536)
    }
}

/// The integer part of a fixed-point number, rounded toward negative infinity.
impl std::convert::From<FixedI32> for i32 {
    fn from(value: FixedI32) -> i32 {
        value.to_int()
    }
}

impl vstd::std_specs::convert::FromSpecImpl<FixedI32> for i32 {
    open spec fn obeys_from_spec() -> bool {
        true
    }

    open spec fn from_spec(value: FixedI32) -> i32 {
        value.floor_int() as i32
    }
}

impl std::default::Default for FixedI32 {
    fn default() -> (r: FixedI32)
        ensures
            r.value == 0,
    {
        FixedI32 { value: 0 }
    }
}

/// Multiplication is exactly the reference 64-bit fixed-point product: the
/// raw values multiplied in 64 bits, shifted right by 16, truncated to 32 bits.
pub proof fn lemma_mul_matches_reference(a: FixedI32, b: FixedI32)
    ensures
        a.spec_mul(b).value == ((((a.value as i64) * (b.value as i64)) as i64 >> 16i64) as i32),
{
    lemma_i32_product_bound(a.value, b.value);
    let p: i64 = ((a.value as i64) * (b.value as i64)) as i64;
    assert(p >> 16i64 == p / 65536) by (bit_vector);
}

/// Division by a nonzero value is exactly the reference 64-bit fixed-point
/// quotient: the dividend widened to 64 bits and shifted left by 16, divided
/// with truncation by the divisor, truncated to 32 bits.
pub proof fn lemma_div_matches_reference(a: FixedI32, b: FixedI32)
    requires
        b.value != 0,
    ensures
        a.spec_div(b).value == (div_trunc(((a.value as i64) << 16i64) as int, b.value as int) as i32),
{
    let x: i64 = a.value as i64;
    assert(-0x8000_0000 <= x < 0x8000_0000);
    assert(x << 16i64 == x * 65536) by (bit_vector)
        requires
            -0x8000_0000 <= x < 0x8000_0000,
    ;
}


proof fn lemma_i32_product_bound(a: i32, b: i32)
    ensures
        -0x4000_0000_0000_0000 <= a * b <= 0x4000_0000_0000_0000,
{
    let x = a as int;
    let y = b as int;
    assert(-0x4000_0000_0000_0000 <= x * y <= 0x4000_0000_0000_0000) by (nonlinear_arith)
        requires
            -0x8000_0000 <= x <= 0x8000_0000,
            -0x8000_0000 <= y <= 0x8000_0000,
    ;
}

proof fn lemma_pow10_bound(k: nat)
    requires
        k < 9,
    ensures
        1 <= pow10(k) <= 100_000_000,
    decreases k,
{
    reveal_with_fuel(pow10, 10);
    if k > 0 {
        lemma_pow10_bound((k - 1) as nat);
    }
}

} // verus!
