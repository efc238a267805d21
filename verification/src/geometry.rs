//! Points, poses and the rigid transform between coordinate frames.
//!
//! Coordinates are whole numbers of world units; how long a unit is (a
//! millimetre, say) is for the caller to fix. Whatever is computed is
//! computed exactly and only the final result is fitted to the range of
//! `i64`, by clamping.

use vstd::prelude::*;
use vstd::arithmetic::div_mod::*;
use crate::angle::{UNIT, cos, cosine, sin, sine};

verus! {

/// A point in some frame, in world units.
#[derive(Clone, Copy, Debug, PartialEq, Eq, Structural)]
pub struct Point {
    pub x: i64,
    pub y: i64,
}

/// A time: seconds and the nanoseconds within the second.
#[derive(Clone, Copy, Debug, PartialEq, Eq, Structural)]
pub struct Stamp {
    pub sec: u32,
    pub nsec: u32,
}

/// A timestamped rigid transform from one frame into another: a rotation by
/// `yaw` about the vertical axis followed by a translation.
#[derive(Clone, Copy, Debug, PartialEq, Eq, Structural)]
pub struct Pose3 {
    pub x: i64,
    pub y: i64,
    pub z: i64,
    /// The heading, in millionths of a degree, anticlockwise.
    pub yaw: i64,
    pub stamp: Stamp,
}

/// `v` fitted into `[lo, hi]`.
pub open spec fn clamp(v: int, lo: int, hi: int) -> int {
    if v < lo {
        lo
    } else if v > hi {
        hi
    } else {
        v
    }
}

/// `v` fitted into the range of `i64`.
pub open spec fn saturate(v: int) -> int {
    clamp(v, i64::MIN as int, i64::MAX as int)
}

/// The first coordinate of `(x, y)` turned anticlockwise by `angle`, times
/// `UNIT`.
pub open spec fn turned_x(x: int, y: int, angle: int) -> int {
    x * cosine(angle) - y * sine(angle)
}

/// The second coordinate of `(x, y)` turned anticlockwise by `angle`, times
/// `UNIT`.
pub open spec fn turned_y(x: int, y: int, angle: int) -> int {
    x * sine(angle) + y * cosine(angle)
}

/// The first coordinate of `(x, y)` turned clockwise by `angle`, times
/// `UNIT`.
pub open spec fn unturned_x(x: int, y: int, angle: int) -> int {
    x * cosine(angle) + y * sine(angle)
}

/// The second coordinate of `(x, y)` turned clockwise by `angle`, times
/// `UNIT`.
pub open spec fn unturned_y(x: int, y: int, angle: int) -> int {
    y * cosine(angle) - x * sine(angle)
}

/// The largest magnitude the arithmetic helpers below accept.
pub open spec fn span() -> int {
    0x10_0000_0000_0000_0000_0000_0000
}

pub proof fn lemma_product_bound(x: int, c: int, bx: int, bc: int)
    by (nonlinear_arith)
    requires
        -bx <= x <= bx,
        -bc <= c <= bc,
    ensures
        -(bx * bc) <= x * c <= bx * bc,
{
}

/// `x * c + y * s`, exactly.
pub(crate) fn dot(x: i128, c: i64, y: i128, s: i64) -> (r: i128)
    requires
        -span() <= x <= span(),
        -span() <= y <= span(),
        -UNIT <= c <= UNIT,
        -UNIT <= s <= UNIT,
    ensures
        r == x * c + y * s,
        -2 * span() * UNIT <= r <= 2 * span() * UNIT,
{
    proof {
        lemma_product_bound(x as int, c as int, span(), UNIT as int);
        lemma_product_bound(y as int, s as int, span(), UNIT as int);
    }
    x * (c as i128) + y * (s as i128)
}

/// `x * c - y * s`, exactly.
pub(crate) fn cross(x: i128, c: i64, y: i128, s: i64) -> (r: i128)
    requires
        -span() <= x <= span(),
        -span() <= y <= span(),
        -UNIT <= c <= UNIT,
        -UNIT <= s <= UNIT,
    ensures
        r == x * c - y * s,
        -2 * span() * UNIT <= r <= 2 * span() * UNIT,
{
    proof {
        lemma_product_bound(x as int, c as int, span(), UNIT as int);
        lemma_product_bound(y as int, s as int, span(), UNIT as int);
    }
    x * (c as i128) - y * (s as i128)
}

/// The quotient of `a` by a positive `d`, rounded down.
pub(crate) fn div_floor(a: i128, d: i128) -> (q: i128)
    requires
        d > 0,
    ensures
        q == (a as int) / (d as int),
{
    proof {
        lemma_fundamental_div_mod(a as int, d as int);
        lemma_mod_bound(a as int, d as int);
        assert(i128::MIN <= (a as int) / (d as int) <= i128::MAX) by (nonlinear_arith)
            requires
                d > 0,
                i128::MIN <= a <= i128::MAX,
                a == d * ((a as int) / (d as int)) + ((a as int) % (d as int)),
                0 <= ((a as int) % (d as int)) < d,
        ;
    }
    match a.checked_div_euclid(d) {
        Some(q) => q,
        None => 0,
    }
}

/// The remainder of `a` by a positive `d`, in `[0, d)`.
pub(crate) fn rem_floor(a: i128, d: i128) -> (r: i128)
    requires
        d > 0,
    ensures
        r == (a as int) % (d as int),
        0 <= r < d,
{
    proof {
        lemma_mod_bound(a as int, d as int);
    }
    match a.checked_rem_euclid(d) {
        Some(r) => r,
        None => 0,
    }
}

/// `v` fitted into the range of `i64`.
pub(crate) fn saturating(v: i128) -> (r: i64)
    ensures
        r == saturate(v as int),
{
    if v < i64::MIN as i128 {
        i64::MIN
    } else if v > i64::MAX as i128 {
        i64::MAX
    } else {
        v as i64
    }
}

impl Pose3 {
    /// Where the pose takes `p`: `p` turned by the yaw, then moved by the
    /// translation. The turn rounds down to a whole unit.
    pub open spec fn applied(self, p: Point) -> Point {
        Point {
            x: saturate(turned_x(p.x as int, p.y as int, self.yaw as int) / (UNIT as int) + self.x) as i64,
            y: saturate(turned_y(p.x as int, p.y as int, self.yaw as int) / (UNIT as int) + self.y) as i64,
        }
    }

    /// The point that the pose takes to `q`, up to rounding: `q` moved back
    /// by the translation, then turned back by the yaw.
    pub open spec fn unapplied(self, q: Point) -> Point {
        Point {
            x: saturate(unturned_x(q.x - self.x, q.y - self.y, self.yaw as int) / (UNIT as int)) as i64,
            y: saturate(unturned_y(q.x - self.x, q.y - self.y, self.yaw as int) / (UNIT as int)) as i64,
        }
    }

    /// Transforms `p` from the pose's source frame into its target frame.
    pub fn apply(&self, p: Point) -> (q: Point)
        ensures
            q == self.applied(p),
    {
        let c = cos(self.yaw);
        let s = sin(self.yaw);
        let tx = cross(p.x as i128, c, p.y as i128, s);
        let ty = dot(p.x as i128, s, p.y as i128, c);
        let qx = div_floor(tx, UNIT as i128);
        let qy = div_floor(ty, UNIT as i128);
        proof {
            lemma_quotient_bound(tx as int, UNIT as int, 2 * span());
            lemma_quotient_bound(ty as int, UNIT as int, 2 * span());
        }
        Point { x: saturating(qx + self.x as i128), y: saturating(qy + self.y as i128) }
    }

    /// Transforms `q` from the pose's target frame back into its source
    /// frame.
    pub fn unapply(&self, q: Point) -> (p: Point)
        ensures
            p == self.unapplied(q),
    {
        let c = cos(self.yaw);
        let s = sin(self.yaw);
        let dx: i128 = q.x as i128 - self.x as i128;
        let dy: i128 = q.y as i128 - self.y as i128;
        let tx = dot(dx, c, dy, s);
        let ty = cross(dy, c, dx, s);
        Point { x: saturating(div_floor(tx, UNIT as i128)), y: saturating(div_floor(ty, UNIT as i128)) }
    }
}

/// A quotient by a positive divisor is no larger than what is divided.
pub proof fn lemma_quotient_bound(a: int, d: int, b: int)
    requires
        d > 0,
        -(b * d) <= a <= b * d,
    ensures
        -b <= a / d <= b,
{
    lemma_fundamental_div_mod(a, d);
    lemma_mod_bound(a, d);
    assert(-b <= a / d <= b) by (nonlinear_arith)
        requires
            d > 0,
            -(b * d) <= a <= b * d,
            a == d * (a / d) + (a % d),
            0 <= a % d < d,
    ;
}

/// Dividing by `c` and then by `d`, rounding down each time, is dividing by
/// `c * d` and rounding down once.
pub proof fn lemma_div_twice(x: int, c: int, d: int)
    requires
        c > 0,
        d > 0,
    ensures
        c * d > 0,
        (x / c) / d == x / (c * d),
{
    let q1 = x / c;
    let r1 = x % c;
    let q2 = q1 / d;
    let r2 = q1 % d;
    lemma_fundamental_div_mod(x, c);
    lemma_mod_bound(x, c);
    lemma_fundamental_div_mod(q1, d);
    lemma_mod_bound(q1, d);
    assert(c * d > 0 && x == q2 * (c * d) + (c * r2 + r1) && 0 <= c * r2 + r1 < c * d)
        by (nonlinear_arith)
        requires
            c > 0,
            d > 0,
            x == c * q1 + r1,
            0 <= r1 < c,
            q1 == d * q2 + r2,
            0 <= r2 < d,
    ;
    lemma_fundamental_div_mod_converse_div(x, c * d, q2, c * r2 + r1);
}

} // verus!
