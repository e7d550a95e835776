//! Fixed-point planar geometry for the field.
//!
//! A point or direction is a pair of `i64` coordinates in milli-units.
//! Distances are compared through their squares, and angular tests are
//! carried out with dot and cross products, so no irrational function is
//! ever needed: "within 0.1 rad" becomes `dot > 0` together with
//! `cross^2 / (|d|^2 |v|^2) <= sin^2(0.1)`, cleared of denominators.

use vstd::prelude::*;
use crate::utils::FP_ONE;

verus! {

/// Positions live in the square [-POS_LIMIT, POS_LIMIT]^2 (milli-units).
pub const POS_LIMIT: i64 = 1_000_000_000;

/// Squared interaction/arrival radius: 5 units = 5000 milli-units.
pub const INTERACT_RANGE_SQ: i64 = 25_000_000;

/// Numerator of sin^2(0.1 rad) as a fraction over [`SIN2_DEN`].
pub const SIN2_NUM: i64 = 9967;

/// Denominator for [`SIN2_NUM`].
pub const SIN2_DEN: i64 = 1_000_000;

/// A point on the field or a direction, in milli-units.
#[derive(Clone, Copy, Debug, PartialEq, Eq, Structural)]
pub struct Vec2 {
    pub x: i64,
    pub y: i64,
}

/// Whether a point lies on the field.
pub open spec fn in_bounds(v: Vec2) -> bool {
    &&& -POS_LIMIT <= v.x <= POS_LIMIT
    &&& -POS_LIMIT <= v.y <= POS_LIMIT
}

/// Whether a direction vector is in the fixed-point unit box.
pub open spec fn dir_ok(d: Vec2) -> bool {
    &&& -FP_ONE <= d.x <= FP_ONE
    &&& -FP_ONE <= d.y <= FP_ONE
}

/// Squared Euclidean distance between two points.
pub open spec fn dist_sq(a: Vec2, b: Vec2) -> int {
    (a.x - b.x) * (a.x - b.x) + (a.y - b.y) * (a.y - b.y)
}

/// Dot product of two vectors.
pub open spec fn dot(a: Vec2, b: Vec2) -> int {
    a.x * b.x + a.y * b.y
}

/// Cross product (z component) of two vectors; positive when `b` lies
/// counterclockwise of `a`.
pub open spec fn cross(a: Vec2, b: Vec2) -> int {
    a.x * b.y - a.y * b.x
}

/// Squared norm of a vector.
pub open spec fn norm_sq(v: Vec2) -> int {
    v.x * v.x + v.y * v.y
}

/// Product bound: factors bounded in absolute value bound the product.
pub proof fn lemma_mul_bound(a: int, b: int, aa: int, bb: int)
    by (nonlinear_arith)
    requires
        -aa <= a <= aa,
        -bb <= b <= bb,
        0 <= aa,
        0 <= bb,
    ensures
        -(aa * bb) <= a * b <= aa * bb,
{
}

/// A square is never negative.
proof fn lemma_sq_nonneg(a: int)
    by (nonlinear_arith)
    ensures
        a * a >= 0,
{
}

/// Computes [`dist_sq`] on in-bounds points without overflow.
pub fn dist_sq_fp(a: Vec2, b: Vec2) -> (r: i64)
    requires
        in_bounds(a),
        in_bounds(b),
    ensures
        r == dist_sq(a, b),
        0 <= r <= 8_000_000_000_000_000_000,
{
    let dx: i64 = a.x - b.x;
    let dy: i64 = a.y - b.y;
    proof {
        lemma_mul_bound(dx as int, dx as int, 2_000_000_000, 2_000_000_000);
        lemma_mul_bound(dy as int, dy as int, 2_000_000_000, 2_000_000_000);
        lemma_sq_nonneg(dx as int);
        lemma_sq_nonneg(dy as int);
    }
    dx * dx + dy * dy
}

/// Whether direction `d` points at the difference vector `v` within the
/// fixed angular tolerance: the angle between them is at most about
/// 0.1 rad. Also false when either vector is zero.
pub open spec fn aligned(d: Vec2, v: Vec2) -> bool {
    &&& dot(d, v) > 0
    &&& cross(d, v) * cross(d, v) * SIN2_DEN <= SIN2_NUM * norm_sq(d) * norm_sq(v)
}

/// [`aligned`] of `d` with the vector that points from `from` to `to`,
/// written out over coordinates so that it can be stated without building
/// the difference vector.
pub open spec fn aligned_toward(d: Vec2, from: Vec2, to: Vec2) -> bool {
    let vx = to.x - from.x;
    let vy = to.y - from.y;
    let dotv = d.x * vx + d.y * vy;
    let crossv = d.x * vy - d.y * vx;
    &&& dotv > 0
    &&& crossv * crossv * SIN2_DEN <= SIN2_NUM * norm_sq(d) * (vx * vx + vy * vy)
}

/// Cross product of `d` with the vector from `from` to `to`; its sign says
/// on which side of `d` the target lies.
pub open spec fn cross_toward(d: Vec2, from: Vec2, to: Vec2) -> int {
    d.x * (to.y - from.y) - d.y * (to.x - from.x)
}

/// Computes the sign data of [`cross_toward`] without overflow.
pub fn cross_toward_fp(d: Vec2, from: Vec2, to: Vec2) -> (r: i64)
    requires
        dir_ok(d),
        in_bounds(from),
        in_bounds(to),
    ensures
        r == cross_toward(d, from, to),
{
    let vx: i64 = to.x - from.x;
    let vy: i64 = to.y - from.y;
    proof {
        lemma_mul_bound(d.x as int, vy as int, 1000, 2_000_000_000);
        lemma_mul_bound(d.y as int, vx as int, 1000, 2_000_000_000);
    }
    d.x * vy - d.y * vx
}

/// Decides [`aligned_toward`] for a unit-box direction and in-bounds
/// points.
pub fn is_aligned_toward(d: Vec2, from: Vec2, to: Vec2) -> (r: bool)
    requires
        dir_ok(d),
        in_bounds(from),
        in_bounds(to),
    ensures
        r == aligned_toward(d, from, to),
{
    is_aligned(d, Vec2 { x: to.x - from.x, y: to.y - from.y })
}

/// Decides [`aligned`] for a direction in the unit box and a difference of
/// two in-bounds points.
pub fn is_aligned(d: Vec2, v: Vec2) -> (r: bool)
    requires
        dir_ok(d),
        -2 * POS_LIMIT <= v.x <= 2 * POS_LIMIT,
        -2 * POS_LIMIT <= v.y <= 2 * POS_LIMIT,
    ensures
        r == aligned(d, v),
{
    let dx: i128 = d.x as i128;
    let dy: i128 = d.y as i128;
    let vx: i128 = v.x as i128;
    let vy: i128 = v.y as i128;
    proof {
        lemma_mul_bound(dx as int, vx as int, 1000, 2_000_000_000);
        lemma_mul_bound(dy as int, vy as int, 1000, 2_000_000_000);
        lemma_mul_bound(dx as int, vy as int, 1000, 2_000_000_000);
        lemma_mul_bound(dy as int, vx as int, 1000, 2_000_000_000);
        lemma_mul_bound(dx as int, dx as int, 1000, 1000);
        lemma_mul_bound(dy as int, dy as int, 1000, 1000);
        lemma_mul_bound(vx as int, vx as int, 2_000_000_000, 2_000_000_000);
        lemma_mul_bound(vy as int, vy as int, 2_000_000_000, 2_000_000_000);
    }
    let dotp: i128 = dx * vx + dy * vy;
    let crossp: i128 = dx * vy - dy * vx;
    let nd: i128 = dx * dx + dy * dy;
    let nv: i128 = vx * vx + vy * vy;
    proof {
        lemma_mul_bound(crossp as int, crossp as int, 4_000_000_000_000, 4_000_000_000_000);
        lemma_mul_bound(
            crossp as int * crossp as int,
            SIN2_DEN as int,
            16_000_000_000_000_000_000_000_000,
            1_000_000,
        );
        lemma_mul_bound(SIN2_NUM as int, nd as int, 9967, 2_000_000);
        lemma_mul_bound(
            SIN2_NUM as int * nd as int,
            nv as int,
            19_934_000_000,
            8_000_000_000_000_000_000,
        );
    }
    let lhs: i128 = crossp * crossp * (SIN2_DEN as i128);
    let rhs: i128 = (SIN2_NUM as i128) * nd * nv;
    dotp > 0 && lhs <= rhs
}

/// Division by a positive divisor that truncates toward zero, as machine
/// signed division does.
pub open spec fn div_trunc(a: int, b: int) -> int
    recommends
        b > 0,
{
    if a >= 0 {
        a / b
    } else {
        -((-a) / b)
    }
}

/// Computes [`div_trunc`] for a bounded numerator and positive divisor.
pub fn div_trunc_fp(n: i64, d: i64) -> (r: i64)
    requires
        d > 0,
        -1_000_000_000_000_000 <= n <= 1_000_000_000_000_000,
    ensures
        r == div_trunc(n as int, d as int),
        -1_000_000_000_000_000 <= r <= 1_000_000_000_000_000,
    {
    if n >= 0 {
        let q: u64 = (n as u64) / (d as u64);
        proof {
            vstd::arithmetic::div_mod::lemma_div_nonincreasing(n as int, d as int);
            vstd::arithmetic::div_mod::lemma_div_pos_is_pos(n as int, d as int);
        }
        q as i64
    } else {
        let m: i64 = -n;
        let q: u64 = (m as u64) / (d as u64);
        proof {
            vstd::arithmetic::div_mod::lemma_div_nonincreasing(m as int, d as int);
            vstd::arithmetic::div_mod::lemma_div_pos_is_pos(m as int, d as int);
        }
        -(q as i64)
    }
}

/// Clamping to a symmetric interval.
pub open spec fn clamp_spec(v: int, lo: int, hi: int) -> int
    recommends
        lo <= hi,
{
    if v < lo {
        lo
    } else if v > hi {
        hi
    } else {
        v
    }
}

/// Clamps an `i64` into `[lo, hi]`.
pub fn clamp_i64(v: i64, lo: i64, hi: i64) -> (r: i64)
    requires
        lo <= hi,
    ensures
        r == clamp_spec(v as int, lo as int, hi as int),
{
    if v < lo {
        lo
    } else if v > hi {
        hi
    } else {
        v
    }
}

/// Clamps a point onto the field.
pub fn clamp_point(v: Vec2) -> (r: Vec2)
    ensures
        r.x == clamp_spec(v.x as int, -POS_LIMIT as int, POS_LIMIT as int),
        r.y == clamp_spec(v.y as int, -POS_LIMIT as int, POS_LIMIT as int),
        in_bounds(r),
{
    Vec2 { x: clamp_i64(v.x, -POS_LIMIT, POS_LIMIT), y: clamp_i64(v.y, -POS_LIMIT, POS_LIMIT) }
}

/// One component of a rotated direction: a product combination scaled back
/// down by `FP_ONE` and clamped into the unit box.
pub open spec fn rot_comp(n: int) -> int {
    clamp_spec(div_trunc(n, FP_ONE as int), -FP_ONE as int, FP_ONE as int)
}

/// The direction `d` rotated by the angular step whose cosine and sine (in
/// permille) are `c` and `s`; counterclockwise when `ccw`, else clockwise.
/// Components are truncated and clamped back into the unit box.
pub open spec fn rotate_spec(d: Vec2, c: int, s: int, ccw: bool) -> Vec2 {
    if ccw {
        Vec2 {
            x: rot_comp(d.x * c - d.y * s) as i64,
            y: rot_comp(d.x * s + d.y * c) as i64,
        }
    } else {
        Vec2 {
            x: rot_comp(d.x * c + d.y * s) as i64,
            y: rot_comp(d.y * c - d.x * s) as i64,
        }
    }
}

/// Truncating division of a bounded value by `FP_ONE`, then clamping.
fn rot_comp_fp(n: i64) -> (r: i64)
    requires
        -4_000_000 <= n <= 4_000_000,
    ensures
        r == rot_comp(n as int),
        -FP_ONE <= r <= FP_ONE,
{
    let q: i64 = if n >= 0 {
        ((n as u64) / (FP_ONE as u64)) as i64
    } else {
        -((((-n) as u64) / (FP_ONE as u64)) as i64)
    };
    clamp_i64(q, -FP_ONE, FP_ONE)
}

/// Computes [`rotate_spec`] for a unit-box direction and a permille step.
pub fn rotate_dir(d: Vec2, c: i64, s: i64, ccw: bool) -> (r: Vec2)
    requires
        dir_ok(d),
        0 <= c <= FP_ONE,
        0 <= s <= FP_ONE,
    ensures
        r == rotate_spec(d, c as int, s as int, ccw),
        dir_ok(r),
{
    proof {
        lemma_mul_bound(d.x as int, c as int, 1000, 1000);
        lemma_mul_bound(d.y as int, s as int, 1000, 1000);
        lemma_mul_bound(d.x as int, s as int, 1000, 1000);
        lemma_mul_bound(d.y as int, c as int, 1000, 1000);
    }
    if ccw {
        Vec2 { x: rot_comp_fp(d.x * c - d.y * s), y: rot_comp_fp(d.x * s + d.y * c) }
    } else {
        Vec2 { x: rot_comp_fp(d.x * c + d.y * s), y: rot_comp_fp(d.y * c - d.x * s) }
    }
}

} // verus!
