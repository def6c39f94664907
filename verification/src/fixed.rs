//! Fixed-point numbers and points of the plane.
//!
//! Every real quantity of the engine (a coordinate in pixels, a radius, a
//! curve parameter, a progress) is held as an `i64` that counts units of
//! `1 / ONE`. A random draw from `[0, 1)` is one of the `ONE` fractions
//! `0 / ONE, 1 / ONE, ..`, taken from the upper 24 bits of a 32-bit word.

use vstd::prelude::*;

verus! {

/// The fixed-point value of the real number one: 2^24.
pub const ONE: i64 = 16_777_216;

/// The fixed-point value of one half.
pub const HALF: i64 = 8_388_608;

/// The largest magnitude of an anchor coordinate, and the largest radius: 2^60.
/// Points that lie within a radius of an anchor then stay well inside `i64`.
pub const COORD_MAX: i64 = 1_152_921_504_606_846_976;

/// A point of the plane, in fixed-point coordinates.
#[derive(Clone, Copy, PartialEq, Eq, Structural, Debug)]
pub struct Point {
    pub x: i64,
    pub y: i64,
}

/// The fraction in `[0, ONE)` that a 32-bit random word stands for: its upper
/// 24 bits.
pub open spec fn unit_of(word: u32) -> int {
    word as int / 256
}

/// `u / ONE` of `r`, rounded down.
pub open spec fn scale(r: int, u: int) -> int {
    (r * u) / (ONE as int)
}

/// The value that lies `num / den` of the way from `a` to `b`, rounded down.
pub open spec fn lerp(a: int, b: int, num: int, den: int) -> int {
    a + ((b - a) * num) / den
}

/// `v` held to the range of `i64`.
pub open spec fn saturated(v: int) -> int {
    if v < i64::MIN {
        i64::MIN as int
    } else if v > i64::MAX {
        i64::MAX as int
    } else {
        v
    }
}

/// Whether `v` lies between `a` and `b`, whichever of the two is larger.
pub open spec fn between(v: int, a: int, b: int) -> bool {
    (a <= v <= b) || (b <= v <= a)
}

impl Point {
    /// Both coordinates are at most `COORD_MAX` in magnitude.
    pub open spec fn bounded(self) -> bool {
        &&& -COORD_MAX <= self.x <= COORD_MAX
        &&& -COORD_MAX <= self.y <= COORD_MAX
    }

    /// The point that lies `num / den` of the way from `a` to `b`, per axis.
    pub open spec fn lerp(a: Point, b: Point, num: int, den: int) -> Point {
        Point {
            x: lerp(a.x as int, b.x as int, num, den) as i64,
            y: lerp(a.y as int, b.y as int, num, den) as i64,
        }
    }

    /// The point `anchor + (ux, uy) * radius`, each product rounded down.
    pub open spec fn offset(anchor: Point, radius: int, ux: int, uy: int) -> Point {
        Point {
            x: (anchor.x + scale(radius, ux)) as i64,
            y: (anchor.y + scale(radius, uy)) as i64,
        }
    }

    /// Whether the point lies in the square `[anchor, anchor + radius]` on both axes.
    pub open spec fn within(self, anchor: Point, radius: int) -> bool {
        &&& anchor.x <= self.x <= anchor.x + radius
        &&& anchor.y <= self.y <= anchor.y + radius
    }

    pub fn new(x: i64, y: i64) -> (p: Point)
        ensures
            p == (Point { x, y }),
    {
        Point { x, y }
    }
}

/// A product of a non-negative value and a fraction of at most `den / den`
/// divides back to at most the value.
pub proof fn lemma_fraction_bounds(d: int, num: int, den: int)
    by (nonlinear_arith)
    requires
        0 <= d,
        0 <= num <= den,
        0 < den,
    ensures
        0 <= d * num <= d * den,
        0 <= (d * num) / den <= d,
        num == 0 ==> (d * num) / den == 0,
        num == den ==> (d * num) / den == d,
{
}

/// Rounding a negative quotient down is rounding its magnitude up.
proof fn lemma_floor_of_negative(x: int, den: int)
    by (nonlinear_arith)
    requires
        0 <= x,
        0 < den,
    ensures
        (-x) / den == -((x + den - 1) / den),
{
}

/// An interpolated value never leaves the interval between its two ends, and
/// it meets them at the two ends of the parameter range.
pub proof fn lemma_lerp_between(a: int, b: int, num: int, den: int)
    requires
        0 <= num <= den,
        0 < den,
    ensures
        between(lerp(a, b, num, den), a, b),
        lerp(a, b, 0, den) == a,
        lerp(a, b, den, den) == b,
{
    if a <= b {
        lemma_fraction_bounds(b - a, num, den);
        lemma_fraction_bounds(b - a, 0, den);
        lemma_fraction_bounds(b - a, den, den);
    } else {
        let d = a - b;
        lemma_fraction_bounds(d, num, den);
        lemma_fraction_bounds(d, 0, den);
        lemma_fraction_bounds(d, den, den);
        lemma_floor_of_negative(d * num, den);
        lemma_floor_of_negative(d * 0, den);
        lemma_floor_of_negative(d * den, den);
        lemma_ceil_bounds(d, num, den);
        lemma_ceil_bounds(d, 0, den);
        lemma_ceil_bounds(d, den, den);
        assert((b - a) * num == -(d * num)) by (nonlinear_arith)
            requires
                d == a - b,
        ;
        assert((b - a) * 0 == -(d * 0)) by (nonlinear_arith)
            requires
                d == a - b,
        ;
        assert((b - a) * den == -(d * den)) by (nonlinear_arith)
            requires
                d == a - b,
        ;
    }
}

/// What is left of the way from an interpolated value to the end `b` is the
/// whole way times the share of the range that is left, up to the rounding:
/// less than one unit.
pub proof fn lemma_lerp_remainder(a: int, b: int, num: int, den: int)
    by (nonlinear_arith)
    requires
        0 <= num <= den,
        0 < den,
    ensures
        0 <= (b - lerp(a, b, num, den)) * den - (b - a) * (den - num) < den,
{
    let x = (b - a) * num;
    assert(x == (x / den) * den + x % den && 0 <= x % den < den);
    assert((b - (a + x / den)) * den == (b - a) * den - (x / den) * den);
    assert((b - a) * (den - num) == (b - a) * den - x);
}

/// The quotient of `d * num` by `den`, rounded up, is at most `d`.
proof fn lemma_ceil_bounds(d: int, num: int, den: int)
    by (nonlinear_arith)
    requires
        0 <= d,
        0 <= num <= den,
        0 < den,
    ensures
        0 <= (d * num + den - 1) / den <= d,
        num == 0 ==> (d * num + den - 1) / den == 0,
        num == den ==> (d * num + den - 1) / den == d,
{
}

/// The sum of `a` and `b`, held to the range of `i64`.
pub fn saturating_sum(a: i64, b: i64) -> (sum: i64)
    ensures
        sum == saturated(a + b),
{
    let wide: i128 = (a as i128) + (b as i128);
    if wide < (i64::MIN as i128) {
        i64::MIN
    } else if wide > (i64::MAX as i128) {
        i64::MAX
    } else {
        wide as i64
    }
}

/// The negation of `a`, held to the range of `i64`.
pub fn saturating_negation(a: i64) -> (negated: i64)
    ensures
        negated == saturated(-a),
{
    if a == i64::MIN {
        i64::MAX
    } else {
        -a
    }
}

/// The fraction in `[0, ONE)` that a random word stands for.
pub fn unit_from_word(word: u32) -> (u: i64)
    ensures
        u == unit_of(word),
        0 <= u < ONE,
{
    (word / 256) as i64
}

/// `u / ONE` of `r`, rounded down.
pub fn scaled(r: i64, u: i64) -> (s: i64)
    requires
        0 <= r,
        0 <= u <= ONE,
    ensures
        s == scale(r as int, u as int),
        0 <= s <= r,
        u < ONE && 0 < r ==> s < r,
{
    proof {
        lemma_fraction_bounds(r as int, u as int, ONE as int);
        lemma_scale_strict(r as int, u as int);
    }
    let wide: i128 = (r as i128) * (u as i128);
    (wide / (ONE as i128)) as i64
}

/// A proper fraction of a positive value is smaller than the value.
proof fn lemma_scale_strict(r: int, u: int)
    by (nonlinear_arith)
    requires
        0 <= r,
        0 <= u <= ONE,
    ensures
        u < ONE && 0 < r ==> (r * u) / (ONE as int) < r,
{
}

/// The product of a difference of two `i64` values and a non-negative `i64`
/// leaves room below the top of `i128`.
proof fn lemma_product_fits(d: int, num: int)
    by (nonlinear_arith)
    requires
        0 <= d <= 0xFFFF_FFFF_FFFF_FFFF,
        0 <= num <= 0x7FFF_FFFF_FFFF_FFFF,
    ensures
        0 <= d * num <= 0x7FFF_FFFF_FFFF_FFFE_8000_0000_0000_0001,
{
}

/// The value that lies `num / den` of the way from `a` to `b`, rounded down.
pub fn interpolated(a: i64, b: i64, num: i64, den: i64) -> (v: i64)
    requires
        0 <= num <= den,
        0 < den,
    ensures
        v == lerp(a as int, b as int, num as int, den as int),
        between(v as int, a as int, b as int),
{
    proof {
        lemma_lerp_between(a as int, b as int, num as int, den as int);
    }
    if a <= b {
        let d: i128 = (b as i128) - (a as i128);
        proof {
            lemma_fraction_bounds(d as int, num as int, den as int);
            lemma_product_fits(d as int, num as int);
        }
        let q: i128 = (d * (num as i128)) / (den as i128);
        ((a as i128) + q) as i64
    } else {
        let d: i128 = (a as i128) - (b as i128);
        proof {
            lemma_fraction_bounds(d as int, num as int, den as int);
            lemma_ceil_bounds(d as int, num as int, den as int);
            lemma_product_fits(d as int, num as int);
            lemma_floor_of_negative(d as int * num as int, den as int);
            assert((b as int - a as int) * (num as int) == -(d as int * num as int))
                by (nonlinear_arith)
                requires
                    d as int == a as int - b as int,
            ;
        }
        let q: i128 = (d * (num as i128) + ((den as i128) - 1)) / (den as i128);
        ((a as i128) - q) as i64
    }
}

} // verus!
