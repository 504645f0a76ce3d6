//! Fixed-point plane geometry shared by the level loader and the simulation.

use vstd::prelude::*;

verus! {

/// Number of sub-pixel steps in one pixel: coordinates, sizes and speeds are
/// all counted in thousandths of a pixel.
pub const SUBPIXELS: i64 = 1000;

/// The value `v` brought into the range of `i64`.
pub open spec fn clamp(v: int) -> int {
    if v < i64::MIN {
        i64::MIN as int
    } else if v > i64::MAX {
        i64::MAX as int
    } else {
        v
    }
}

/// Absolute value.
pub open spec fn magnitude(a: int) -> int {
    if a >= 0 {
        a
    } else {
        -a
    }
}

/// Division rounding toward zero, as Rust's `/` on signed integers does.
pub open spec fn div_trunc(a: int, b: int) -> int {
    let q = magnitude(a) / magnitude(b);
    if (a >= 0) == (b >= 0) {
        q
    } else {
        -q
    }
}

/// Narrows a wide value to `i64`, saturating at either end.
pub fn saturate(v: i128) -> (r: i64)
    ensures
        r == clamp(v as int),
{
    if v < i64::MIN as i128 {
        i64::MIN
    } else if v > i64::MAX as i128 {
        i64::MAX
    } else {
        v as i64
    }
}

/// Saturating sum of two coordinates.
pub fn sat_add(a: i64, b: i64) -> (r: i64)
    ensures
        r == clamp(a + b),
{
    saturate(a as i128 + b as i128)
}

/// Quotient rounded toward zero.
pub fn quotient(a: i128, b: i128) -> (r: i128)
    requires
        b != 0,
        a > i128::MIN,
        b > i128::MIN,
    ensures
        r == div_trunc(a as int, b as int),
        magnitude(r as int) <= magnitude(a as int),
{
    let n: i128 = if a >= 0 {
        a
    } else {
        -a
    };
    let d: i128 = if b >= 0 {
        b
    } else {
        -b
    };
    let q: i128 = n / d;
    assert(q <= n) by (nonlinear_arith)
        requires
            q == n / d,
            n >= 0,
            d >= 1,
    ;
    if (a >= 0) == (b >= 0) {
        q
    } else {
        -q
    }
}

/// A point or a displacement in the plane, in sub-pixels.
#[derive(Clone, Copy, Debug, PartialEq, Eq, Structural)]
pub struct Vec2 {
    pub x: i64,
    pub y: i64,
}

impl Vec2 {
    pub fn new(x: i64, y: i64) -> (r: Vec2)
        ensures
            r.x == x,
            r.y == y,
    {
        Vec2 { x, y }
    }

    pub open spec fn zero_spec() -> Vec2 {
        Vec2 { x: 0, y: 0 }
    }

    pub fn zero() -> (r: Vec2)
        ensures
            r == Vec2::zero_spec(),
    {
        Vec2 { x: 0, y: 0 }
    }

    /// Component-wise saturating sum.
    pub fn plus(self, o: Vec2) -> (r: Vec2)
        ensures
            r == self.spec_plus(o),
    {
        Vec2 { x: sat_add(self.x, o.x), y: sat_add(self.y, o.y) }
    }

    pub open spec fn spec_plus(self, o: Vec2) -> Vec2 {
        Vec2 { x: clamp(self.x + o.x) as i64, y: clamp(self.y + o.y) as i64 }
    }
}

} // verus!
