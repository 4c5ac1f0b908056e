//! Signed 16.16 fixed-point scalars.
//!
//! Every quantity the rasterizer computes with (coordinates, colours,
//! texture coordinates, depth) is a [`Fixed`]: a 32-bit integer counting
//! units of 1/65536. All operations are total. A result that does not fit
//! saturates at the nearest end of the range, and a division by zero
//! saturates towards the sign of the dividend, so the largest value doubles
//! as "infinitely far" in a depth buffer.
//!
//! Contracts are stated over the raw integer of each value, as mathematical
//! integers: `mul_raw(a, b)` is the raw result of multiplying the values
//! whose raw integers are `a` and `b`. Quotients round towards minus
//! infinity.
use crate::arith::lemma_bounded_product;
use crate::arith::lemma_cancel_order;
use crate::arith::lemma_cancel_strict_order;
use crate::arith::lemma_quotient_bounds;
use crate::arith::lemma_scale_order;
use crate::arith::lemma_spread_two;
use crate::arith::lemma_swap;
use crate::arith::lemma_zero_factor;
use vstd::arithmetic::div_mod::lemma_fundamental_div_mod;
use vstd::arithmetic::div_mod::lemma_fundamental_div_mod_converse;
use vstd::prelude::*;

verus! {

/// Raw integer of the value one.
pub const ONE_RAW: i32 = 65536;

/// Raw integer of the value one half.
pub const HALF_RAW: i32 = 32768;

/// Bound below which wide intermediates are negated freely.
pub const WIDE_LIMIT: i128 = 0x4000_0000_0000_0000_0000_0000_0000_0000;

/// The nearest 32-bit integer to `x`.
pub open spec fn saturate(x: int) -> int {
    if x < -0x8000_0000 {
        -0x8000_0000
    } else if x > 0x7fff_ffff {
        0x7fff_ffff
    } else {
        x
    }
}

/// The largest integer not above `n / d`, for `d != 0`.
pub open spec fn floor_div(n: int, d: int) -> int {
    if d > 0 {
        n / d
    } else {
        (-n) / (-d)
    }
}

/// Raw sum.
pub open spec fn add_raw(a: int, b: int) -> int {
    saturate(a + b)
}

/// Raw difference.
pub open spec fn sub_raw(a: int, b: int) -> int {
    saturate(a - b)
}

/// Raw negation.
pub open spec fn neg_raw(a: int) -> int {
    saturate(-a)
}

/// Raw product: the exact product, rescaled and rounded down.
pub open spec fn mul_raw(a: int, b: int) -> int {
    saturate((a * b) / 65536)
}

/// Raw quotient: rounded down; a zero divisor saturates by the dividend's sign.
pub open spec fn div_raw(a: int, b: int) -> int {
    if b == 0 {
        if a > 0 {
            0x7fff_ffff
        } else if a < 0 {
            -0x8000_0000
        } else {
            0
        }
    } else {
        saturate(floor_div(a * 65536, b))
    }
}

/// Raw interpolation `a + (b - a) * t`, each step a fixed-point operation.
pub open spec fn lerp_raw(a: int, b: int, t: int) -> int {
    add_raw(a, mul_raw(sub_raw(b, a), t))
}

/// Clamps a wide integer into 32 bits.
pub fn saturate_i128(x: i128) -> (r: i32)
    ensures
        r == saturate(x as int),
{
    if x < -0x8000_0000 {
        -0x8000_0000
    } else if x > 0x7fff_ffff {
        0x7fff_ffff
    } else {
        x as i32
    }
}

/// Floor division of wide integers, whatever the signs.
pub fn floor_div_i128(n: i128, d: i128) -> (q: i128)
    requires
        d != 0,
        -WIDE_LIMIT < n < WIDE_LIMIT,
        -WIDE_LIMIT < d < WIDE_LIMIT,
    ensures
        q == floor_div(n as int, d as int),
{
    let (num, den): (i128, i128) = if d > 0 {
        (n, d)
    } else {
        (-n, -d)
    };
    if num >= 0 {
        num / den
    } else {
        let m: i128 = -num;
        let qm: i128 = m / den;
        let rm: i128 = m % den;
        proof {
            lemma_fundamental_div_mod(m as int, den as int);
            lemma_floor_of_negative(num as int, den as int, qm as int, rm as int);
        }
        if rm == 0 {
            -qm
        } else {
            -qm - 1
        }
    }
}

/// Quotient of a negative dividend, from quotient and remainder of its magnitude.
proof fn lemma_floor_of_negative(x: int, d: int, qm: int, rm: int)
    requires
        d > 0,
        0 <= rm < d,
        -x == d * qm + rm,
    ensures
        rm == 0 ==> x / d == -qm,
        rm != 0 ==> x / d == -qm - 1,
{
    // -(d * qm) == (-qm) * d, and (-qm - 1) * d == (-qm) * d - d
    lemma_swap(d, qm);
    lemma_spread_two(d, 0, qm);
    lemma_spread_two(d, -qm, 1);
    lemma_zero_factor(d);
    if rm == 0 {
        lemma_fundamental_div_mod_converse(x, d, -qm, 0);
    } else {
        lemma_fundamental_div_mod_converse(x, d, -qm - 1, d - rm);
    }
}

/// The product of two 32-bit integers stays far inside the wide range.
pub proof fn lemma_product_bound(a: int, b: int)
    requires
        -0x1_0000_0000 <= a <= 0x1_0000_0000,
        -0x1_0000_0000 <= b <= 0x1_0000_0000,
    ensures
        -0x1_0000_0000_0000_0000 <= a * b <= 0x1_0000_0000_0000_0000,
{
    lemma_bounded_product(a, b, 0x1_0000_0000);
}

/// Whether `x` is the raw integer of some fixed-point value.
pub open spec fn is_raw(x: int) -> bool {
    -0x8000_0000 <= x <= 0x7fff_ffff
}

/// An interpolation with a parameter between zero and one stays between
/// its two ends.
pub proof fn lemma_lerp_between(a: int, b: int, t: int)
    requires
        is_raw(a),
        is_raw(b),
        0 <= t <= 65536,
    ensures
        a <= b ==> a <= lerp_raw(a, b, t) <= b,
        b <= a ==> b <= lerp_raw(a, b, t) <= a,
{
    let d = sub_raw(b, a);
    lemma_zero_factor(d);
    if a <= b {
        // 0 <= d * t <= d * 65536
        lemma_scale_order(0, t, d);
        lemma_scale_order(t, 65536, d);
    } else {
        // d * 65536 <= d * t <= 0
        lemma_scale_order(0, t, -d);
        lemma_scale_order(t, 65536, -d);
        lemma_spread_two(t, 0, d);
        lemma_spread_two(65536, 0, d);
        lemma_swap(t, d);
        lemma_swap(t, -d);
        lemma_zero_factor(t);
    }
}

/// An interpolation whose ends differ by a representable amount is exact
/// but for one rounding: `a + floor((b - a) * t)`.
pub proof fn lemma_lerp_exact(a: int, b: int, t: int)
    requires
        is_raw(a),
        is_raw(b),
        is_raw(b - a),
        0 <= t <= 65536,
    ensures
        lerp_raw(a, b, t) == a + ((b - a) * t) / 65536,
        65536 * (lerp_raw(a, b, t) - a) <= (b - a) * t < 65536 * (lerp_raw(a, b, t) - a) + 65536,
{
    lemma_lerp_between(a, b, t);
    let d = b - a;
    lemma_zero_factor(d);
    if a <= b {
        lemma_scale_order(0, t, d);
        lemma_scale_order(t, 65536, d);
    } else {
        lemma_scale_order(0, t, -d);
        lemma_scale_order(t, 65536, -d);
        lemma_spread_two(t, 0, d);
        lemma_spread_two(65536, 0, d);
        lemma_swap(t, d);
        lemma_swap(t, -d);
        lemma_zero_factor(t);
    }
}

/// The parameter at which an edge crosses the plane `z = 0` lies between
/// zero and one when the edge has one end at or behind the plane and its
/// other end in front.
pub proof fn lemma_crossing_parameter(z_from: int, z_to: int)
    requires
        is_raw(z_from),
        is_raw(z_to),
        (z_from <= 0 < z_to) || (z_to <= 0 < z_from),
    ensures
        0 <= div_raw(neg_raw(z_from), sub_raw(z_to, z_from)) <= 65536,
{
    let n = neg_raw(z_from);
    let d = sub_raw(z_to, z_from);
    // Divide the magnitudes: both are of one sign, and the divisor is the larger.
    let (num, den) = if d > 0 {
        (n, d)
    } else {
        (-n, -d)
    };
    assert(0 <= num <= den && den > 0);
    assert(floor_div(n * 65536, d) == (num * 65536) / den);
    let q = (num * 65536) / den;
    lemma_quotient_bounds(num * 65536, den);
    lemma_spread_two(den, q, 1);
    lemma_zero_factor(den);
    lemma_cancel_strict_order(0, q + 1, den);
    lemma_swap(65536, den);
    lemma_cancel_order(q, 65536, den);
}

/// A signed 16.16 fixed-point number.
#[derive(Clone, Copy, Debug, PartialEq, Eq, Structural)]
pub struct Fixed {
    /// The value, counted in units of 1/65536.
    pub raw: i32,
}

/// Values that can be added, subtracted and scaled by a scalar, component by
/// component. These are the operations interpolation is built from.
pub trait Linear: Sized {
    /// Component-wise sum.
    spec fn add_spec(self, rhs: Self) -> Self;

    /// Component-wise difference.
    spec fn sub_spec(self, rhs: Self) -> Self;

    /// Every component multiplied by `rhs`.
    spec fn mul_spec(self, rhs: Fixed) -> Self;

    fn add(self, rhs: Self) -> (r: Self)
        ensures
            r == self.add_spec(rhs),
    ;

    fn sub(self, rhs: Self) -> (r: Self)
        ensures
            r == self.sub_spec(rhs),
    ;

    fn mul(self, rhs: Fixed) -> (r: Self)
        ensures
            r == self.mul_spec(rhs),
    ;
}

impl Fixed {
    /// The fixed-point number with raw integer `x`, saturated to 32 bits.
    pub open spec fn of_raw(x: int) -> Fixed {
        Fixed { raw: saturate(x) as i32 }
    }

    /// Quotient `self / rhs`.
    pub open spec fn div_spec(self, rhs: Fixed) -> Fixed {
        Fixed::of_raw(div_raw(self.raw as int, rhs.raw as int))
    }

    /// Negation.
    pub open spec fn neg_spec(self) -> Fixed {
        Fixed::of_raw(neg_raw(self.raw as int))
    }

    pub fn from_raw(raw: i32) -> (r: Fixed)
        ensures
            r.raw == raw,
    {
        Fixed { raw }
    }

    /// The whole number `n`, saturated to the representable range.
    pub fn from_int(n: i32) -> (r: Fixed)
        ensures
            r.raw == saturate(n * 65536),
    {
        let wide: i128 = (n as i128) * 65536;
        Fixed { raw: saturate_i128(wide) }
    }

    /// The fraction `n / d`, rounded down; `d == 0` saturates by the sign of `n`.
    pub fn from_ratio(n: i32, d: i32) -> (r: Fixed)
        ensures
            r.raw == div_raw(n as int, d as int),
    {
        Fixed { raw: n }.div(Fixed { raw: d })
    }

    pub fn zero() -> (r: Fixed)
        ensures
            r.raw == 0,
    {
        Fixed { raw: 0 }
    }

    pub fn one() -> (r: Fixed)
        ensures
            r.raw == ONE_RAW,
    {
        Fixed { raw: ONE_RAW }
    }

    /// One half: the offset of a pixel's centre from its corner.
    pub fn half() -> (r: Fixed)
        ensures
            r.raw == HALF_RAW,
    {
        Fixed { raw: HALF_RAW }
    }

    /// The largest value; stands for "infinitely far" in a depth buffer.
    pub fn max_value() -> (r: Fixed)
        ensures
            r.raw == i32::MAX,
    {
        Fixed { raw: i32::MAX }
    }

    pub fn min_value() -> (r: Fixed)
        ensures
            r.raw == i32::MIN,
    {
        Fixed { raw: i32::MIN }
    }

    /// The largest whole number not above the value.
    pub fn floor(self) -> (r: i32)
        ensures
            r == self.raw as int / 65536,
            -32768 <= r <= 32767,
    {
        let q: i128 = floor_div_i128(self.raw as i128, 65536);
        q as i32
    }

    pub fn neg(self) -> (r: Fixed)
        ensures
            r == self.neg_spec(),
    {
        Fixed { raw: saturate_i128(-(self.raw as i128)) }
    }

    pub fn div(self, rhs: Fixed) -> (r: Fixed)
        ensures
            r == self.div_spec(rhs),
    {
        if rhs.raw == 0 {
            if self.raw > 0 {
                Fixed { raw: i32::MAX }
            } else if self.raw < 0 {
                Fixed { raw: i32::MIN }
            } else {
                Fixed { raw: 0 }
            }
        } else {
            let n: i128 = (self.raw as i128) * 65536;
            let q: i128 = floor_div_i128(n, rhs.raw as i128);
            Fixed { raw: saturate_i128(q) }
        }
    }

    /// The smaller of two values.
    pub fn min(self, rhs: Fixed) -> (r: Fixed)
        ensures
            r.raw == if self.raw <= rhs.raw { self.raw } else { rhs.raw },
    {
        if self.raw <= rhs.raw {
            self
        } else {
            rhs
        }
    }

    /// The larger of two values.
    pub fn max(self, rhs: Fixed) -> (r: Fixed)
        ensures
            r.raw == if self.raw >= rhs.raw { self.raw } else { rhs.raw },
    {
        if self.raw >= rhs.raw {
            self
        } else {
            rhs
        }
    }
}

impl Linear for Fixed {
    open spec fn add_spec(self, rhs: Fixed) -> Fixed {
        Fixed::of_raw(add_raw(self.raw as int, rhs.raw as int))
    }

    open spec fn sub_spec(self, rhs: Fixed) -> Fixed {
        Fixed::of_raw(sub_raw(self.raw as int, rhs.raw as int))
    }

    open spec fn mul_spec(self, rhs: Fixed) -> Fixed {
        Fixed::of_raw(mul_raw(self.raw as int, rhs.raw as int))
    }

    fn add(self, rhs: Fixed) -> (r: Fixed) {
        Fixed { raw: saturate_i128(self.raw as i128 + rhs.raw as i128) }
    }

    fn sub(self, rhs: Fixed) -> (r: Fixed) {
        Fixed { raw: saturate_i128(self.raw as i128 - rhs.raw as i128) }
    }

    fn mul(self, rhs: Fixed) -> (r: Fixed) {
        proof {
            lemma_product_bound(self.raw as int, rhs.raw as int);
        }
        let p: i128 = (self.raw as i128) * (rhs.raw as i128);
        let q: i128 = floor_div_i128(p, 65536);
        Fixed { raw: saturate_i128(q) }
    }
}

} // verus!
