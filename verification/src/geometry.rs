//! Where a ray meets a wall, in exact integer arithmetic.
//!
//! A ray starts at an origin `o` and runs along a direction `d`; a wall is the
//! closed segment from `a` to `b`. The ray meets the line through the wall at
//! `o + t * d`, which is also `a + s * (b - a)`. Both `t` and `s` are
//! fractions over one denominator, and are kept as such: nothing is rounded
//! until a meeting point is asked for.

use crate::map::MAX_RAY_ORIGIN;
use crate::utility::lemma_product_bound;
use crate::utility::quotient;
use crate::utility::quotient_toward_zero;
use crate::utility::saturate;
use crate::utility::saturated;
use crate::utility::Point;
use crate::utility::FULL_TURN;
use crate::utility::UNIT;
use vstd::arithmetic::div_mod::lemma_fundamental_div_mod;
use vstd::arithmetic::div_mod::lemma_fundamental_div_mod_converse;
use vstd::prelude::*;

verus! {

/// The cross product of the vectors `(ax, ay)` and `(bx, by)`.
pub open spec fn cross(ax: int, ay: int, bx: int, by: int) -> int {
    ax * by - ay * bx
}

/// Whether both coordinates of `p` are within `MAX_RAY_ORIGIN` of zero.
pub open spec fn within_ray_range(p: Point) -> bool {
    &&& -MAX_RAY_ORIGIN <= p.x <= MAX_RAY_ORIGIN
    &&& -MAX_RAY_ORIGIN <= p.y <= MAX_RAY_ORIGIN
}

/// Whether both components of `d` are within one unit of zero.
pub open spec fn is_direction(d: Point) -> bool {
    &&& -UNIT <= d.x <= UNIT
    &&& -UNIT <= d.y <= UNIT
}

/// Where a ray meets the line through a wall, as two fractions over the
/// denominator `scale`, which is never negative: `along / scale` is how far
/// along the ray, in lengths of its direction, and `across / scale` is how far
/// along the wall, from 0 at its first end to 1 at its second. A `scale` of
/// zero means that ray and wall are parallel.
#[derive(Clone, Copy, Debug, PartialEq, Eq, Structural)]
pub struct Crossing {
    pub along: i128,
    pub across: i128,
    pub scale: i128,
}

/// The denominator of the crossing of the ray along `d` with the wall from `a`
/// to `b`, before its sign is settled.
pub open spec fn raw_scale(d: Point, a: Point, b: Point) -> int {
    cross(d.x as int, d.y as int, b.x - a.x, b.y - a.y)
}

/// How far along the ray from `o` along `d` the line through `a` and `b` is
/// met, as a numerator over `spec_scale`.
pub open spec fn spec_along(o: Point, d: Point, a: Point, b: Point) -> int {
    let n = cross(a.x - o.x, a.y - o.y, b.x - a.x, b.y - a.y);
    if raw_scale(d, a, b) < 0 {
        -n
    } else {
        n
    }
}

/// How far along the wall from `a` to `b` the ray from `o` along `d` meets its
/// line, as a numerator over `spec_scale`.
pub open spec fn spec_across(o: Point, d: Point, a: Point, b: Point) -> int {
    let n = cross(a.x - o.x, a.y - o.y, d.x as int, d.y as int);
    if raw_scale(d, a, b) < 0 {
        -n
    } else {
        n
    }
}

/// The denominator of both fractions of a crossing.
pub open spec fn spec_scale(d: Point, a: Point, b: Point) -> int {
    if raw_scale(d, a, b) < 0 {
        -raw_scale(d, a, b)
    } else {
        raw_scale(d, a, b)
    }
}

/// Whether `c` is the crossing of the ray from `o` along `d` with the wall
/// from `a` to `b`.
pub open spec fn is_crossing(c: Crossing, o: Point, d: Point, a: Point, b: Point) -> bool {
    &&& c.along == spec_along(o, d, a, b)
    &&& c.across == spec_across(o, d, a, b)
    &&& c.scale == spec_scale(d, a, b)
}

/// The crossing of the ray from `o` along `d` with the wall from `a` to `b`.
pub open spec fn spec_crossing(o: Point, d: Point, a: Point, b: Point) -> Crossing {
    Crossing {
        along: spec_along(o, d, a, b) as i128,
        across: spec_across(o, d, a, b) as i128,
        scale: spec_scale(d, a, b) as i128,
    }
}

/// Whether the ray hits the wall: they are not parallel, the meeting point is
/// not behind the origin, and it lies between the ends of the wall or on one
/// of them.
pub open spec fn hits(c: Crossing) -> bool {
    &&& c.scale > 0
    &&& c.along >= 0
    &&& 0 <= c.across <= c.scale
}

/// Whether the hit `c` is no farther along the ray than the hit `other`.
pub open spec fn no_farther(c: Crossing, other: Crossing) -> bool {
    c.along * other.scale <= other.along * c.scale
}

/// The point at which the wall from `a` to `b` is hit, each coordinate
/// rounded down.
pub open spec fn spec_hit_point(a: Point, b: Point, c: Crossing) -> Point {
    Point {
        x: (a.x + ((b.x - a.x) * c.across) / (c.scale as int)) as i64,
        y: (a.y + ((b.y - a.y) * c.across) / (c.scale as int)) as i64,
    }
}

/// The size of a crossing that comes of points within range.
pub open spec fn crossing_bounded(c: Crossing) -> bool {
    &&& -4_004_000_000_000_000_000_000 <= c.along <= 4_004_000_000_000_000_000_000
    &&& -2_002_000_000_000_000_000 <= c.across <= 2_002_000_000_000_000_000
    &&& 0 <= c.scale <= 4_000_000_000_000_000
}

/// Being no farther is transitive among crossings that are not parallel.
pub proof fn lemma_no_farther_transitive(c: Crossing, d: Crossing, e: Crossing)
    requires
        c.scale > 0,
        d.scale > 0,
        e.scale > 0,
        no_farther(c, d),
        no_farther(d, e),
    ensures
        no_farther(c, e),
{
    let (ca, cs) = (c.along as int, c.scale as int);
    let (da, ds) = (d.along as int, d.scale as int);
    let (ea, es) = (e.along as int, e.scale as int);
    assert(ca * ds * es <= da * cs * es) by (nonlinear_arith)
        requires
            ca * ds <= da * cs,
            es > 0,
    ;
    assert(da * es * cs <= ea * ds * cs) by (nonlinear_arith)
        requires
            da * es <= ea * ds,
            cs > 0,
    ;
    assert(da * cs * es == da * es * cs) by (nonlinear_arith);
    assert(ca * ds * es == (ca * es) * ds) by (nonlinear_arith);
    assert(ea * ds * cs == (ea * cs) * ds) by (nonlinear_arith);
    assert(ca * es <= ea * cs) by (nonlinear_arith)
        requires
            (ca * es) * ds <= (ea * cs) * ds,
            ds > 0,
    ;
}

/// `a / n`, rounded down.
pub fn floor_quotient(a: i128, n: i128) -> (r: i128)
    requires
        n > 0,
        a > i128::MIN,
    ensures
        r == (a as int) / (n as int),
{
    if a >= 0 {
        a / n
    } else {
        let size: i128 = -a;
        let parts: i128 = size / n;
        let rest: i128 = size % n;
        proof {
            lemma_fundamental_div_mod(size as int, n as int);
            if rest == 0 {
                assert(a as int == (-parts) * n + 0) by (nonlinear_arith)
                    requires
                        size == n * parts + rest,
                        rest == 0,
                        a == -size,
                ;
                lemma_fundamental_div_mod_converse(a as int, n as int, -parts as int, 0);
            } else {
                assert(a as int == (-parts - 1) * n + (n - rest)) by (nonlinear_arith)
                    requires
                        size == n * parts + rest,
                        a == -size,
                ;
                lemma_fundamental_div_mod_converse(
                    a as int,
                    n as int,
                    -parts - 1,
                    n - rest,
                );
            }
        }
        if rest == 0 {
            -parts
        } else {
            -parts - 1
        }
    }
}

/// The crossing of the ray from `o` along `d` with the wall from `a` to `b`.
pub fn meet(o: Point, d: Point, a: Point, b: Point) -> (c: Crossing)
    requires
        within_ray_range(o),
        is_direction(d),
        crate::map::within_map_range(a),
        crate::map::within_map_range(b),
    ensures
        is_crossing(c, o, d, a, b),
        c == spec_crossing(o, d, a, b),
        crossing_bounded(c),
{
    let ex: i128 = b.x as i128 - a.x as i128;
    let ey: i128 = b.y as i128 - a.y as i128;
    let wx: i128 = a.x as i128 - o.x as i128;
    let wy: i128 = a.y as i128 - o.y as i128;
    let dx: i128 = d.x as i128;
    let dy: i128 = d.y as i128;
    proof {
        lemma_product_bound(dx as int, ey as int, 1_000_000, 2_000_000_000);
        lemma_product_bound(dy as int, ex as int, 1_000_000, 2_000_000_000);
        lemma_product_bound(wx as int, ey as int, 1_001_000_000_000, 2_000_000_000);
        lemma_product_bound(wy as int, ex as int, 1_001_000_000_000, 2_000_000_000);
        lemma_product_bound(wx as int, dy as int, 1_001_000_000_000, 1_000_000);
        lemma_product_bound(wy as int, dx as int, 1_001_000_000_000, 1_000_000);
    }
    let scale: i128 = dx * ey - dy * ex;
    let along: i128 = wx * ey - wy * ex;
    let across: i128 = wx * dy - wy * dx;
    if scale < 0 {
        Crossing { along: -along, across: -across, scale: -scale }
    } else {
        Crossing { along, across, scale }
    }
}

/// Whether the hit `c` is strictly nearer along the ray than the hit `other`.
pub fn is_nearer(c: Crossing, other: Crossing) -> (r: bool)
    requires
        crossing_bounded(c),
        crossing_bounded(other),
    ensures
        r == !no_farther(other, c),
{
    proof {
        lemma_product_bound(
            c.along as int,
            other.scale as int,
            4_004_000_000_000_000_000_000,
            4_000_000_000_000_000,
        );
        lemma_product_bound(
            other.along as int,
            c.scale as int,
            4_004_000_000_000_000_000_000,
            4_000_000_000_000_000,
        );
    }
    c.along * other.scale < other.along * c.scale
}

/// The point at which the wall from `a` to `b` is hit. It lies within the
/// rectangle that the wall spans.
pub fn hit_point(a: Point, b: Point, c: Crossing) -> (p: Point)
    requires
        crate::map::within_map_range(a),
        crate::map::within_map_range(b),
        crossing_bounded(c),
        hits(c),
    ensures
        p == spec_hit_point(a, b, c),
        a.x <= p.x <= b.x || b.x <= p.x <= a.x,
        a.y <= p.y <= b.y || b.y <= p.y <= a.y,
{
    let ex: i128 = b.x as i128 - a.x as i128;
    let ey: i128 = b.y as i128 - a.y as i128;
    proof {
        lemma_product_bound(ex as int, c.across as int, 2_000_000_000, 2_002_000_000_000_000_000);
        lemma_product_bound(ey as int, c.across as int, 2_000_000_000, 2_002_000_000_000_000_000);
        lemma_share_between(ex as int, c.across as int, c.scale as int);
        lemma_share_between(ey as int, c.across as int, c.scale as int);
    }
    let px: i128 = a.x as i128 + floor_quotient(ex * c.across, c.scale);
    let py: i128 = a.y as i128 + floor_quotient(ey * c.across, c.scale);
    Point { x: px as i64, y: py as i64 }
}

/// A share `part / whole` of a length `e`, rounded down, lies between zero and
/// `e`.
pub proof fn lemma_share_between(e: int, part: int, whole: int)
    requires
        whole > 0,
        0 <= part <= whole,
    ensures
        e >= 0 ==> 0 <= (e * part) / whole <= e,
        e <= 0 ==> e <= (e * part) / whole <= 0,
{
    lemma_fundamental_div_mod(e * part, whole);
    let q = (e * part) / whole;
    let m = (e * part) % whole;
    if e >= 0 {
        assert(0 <= e * part <= e * whole) by (nonlinear_arith)
            requires
                e >= 0,
                0 <= part <= whole,
        ;
        assert(0 <= q <= e) by (nonlinear_arith)
            requires
                e * part == whole * q + m,
                0 <= m < whole,
                0 <= e * part <= e * whole,
                whole > 0,
        ;
    }
    if e <= 0 {
        assert(e * whole <= e * part <= 0) by (nonlinear_arith)
            requires
                e <= 0,
                0 <= part <= whole,
        ;
        assert(e <= q <= 0) by (nonlinear_arith)
            requires
                e * part == whole * q + m,
                0 <= m < whole,
                e * whole <= e * part <= 0,
                whole > 0,
        ;
    }
}

/// Where `landmark` stands for a viewer at `origin` who looks along `d`: the
/// offset from the viewer, turned so that the viewer's heading becomes the x
/// axis. Each coordinate is rounded toward zero and held within `i64`.
pub open spec fn spec_to_frame(landmark: Point, origin: Point, d: Point) -> Point {
    let rel = landmark.spec_minus(origin);
    Point {
        x: saturate(quotient_toward_zero(rel.x * d.x + rel.y * d.y, UNIT as int)),
        y: saturate(quotient_toward_zero(rel.y * d.x - rel.x * d.y, UNIT as int)),
    }
}

/// Whether a point `r`, given in the viewer's frame, lies in the field of view
/// of width `fov` that is centred on the x axis. `half` is the direction of
/// the angle `fov / 2`. A field of a full turn or more holds every point, one
/// of negative width none; on the edge of the field a point is inside.
pub open spec fn in_window(r: Point, fov: i64, half: Point) -> bool {
    if fov >= FULL_TURN {
        true
    } else if fov < 0 {
        false
    } else {
        let side = if r.y < 0 {
            -(r.y as int)
        } else {
            r.y as int
        };
        let turn = r.x * half.y - side * half.x;
        turn > 0 || (turn == 0 && r.x * half.x + side * half.y >= 0)
    }
}

/// Where `landmark` stands for a viewer at `origin` who looks along `d`.
pub fn to_frame(landmark: Point, origin: Point, d: Point) -> (r: Point)
    requires
        is_direction(d),
    ensures
        r == spec_to_frame(landmark, origin, d),
{
    let rel = landmark - origin;
    let rx: i128 = rel.x as i128;
    let ry: i128 = rel.y as i128;
    let dx: i128 = d.x as i128;
    let dy: i128 = d.y as i128;
    proof {
        lemma_product_bound(rx as int, dx as int, 0x8000_0000_0000_0000, 1_000_000);
        lemma_product_bound(ry as int, dy as int, 0x8000_0000_0000_0000, 1_000_000);
        lemma_product_bound(ry as int, dx as int, 0x8000_0000_0000_0000, 1_000_000);
        lemma_product_bound(rx as int, dy as int, 0x8000_0000_0000_0000, 1_000_000);
    }
    Point {
        x: saturated(quotient(rx * dx + ry * dy, UNIT as i128)),
        y: saturated(quotient(ry * dx - rx * dy, UNIT as i128)),
    }
}

/// Whether a point `r`, given in the viewer's frame, lies in the field of view
/// of width `fov`, where `half` is the direction of the angle `fov / 2`.
pub fn is_in_window(r: Point, fov: i64, half: Point) -> (inside: bool)
    requires
        is_direction(half),
    ensures
        inside == in_window(r, fov, half),
{
    if fov >= FULL_TURN {
        true
    } else if fov < 0 {
        false
    } else {
        let rx: i128 = r.x as i128;
        let side: i128 = if r.y < 0 {
            -(r.y as i128)
        } else {
            r.y as i128
        };
        let hx: i128 = half.x as i128;
        let hy: i128 = half.y as i128;
        proof {
            lemma_product_bound(rx as int, hy as int, 0x8000_0000_0000_0000, 1_000_000);
            lemma_product_bound(side as int, hx as int, 0x8000_0000_0000_0000, 1_000_000);
            lemma_product_bound(rx as int, hx as int, 0x8000_0000_0000_0000, 1_000_000);
            lemma_product_bound(side as int, hy as int, 0x8000_0000_0000_0000, 1_000_000);
        }
        let turn: i128 = rx * hy - side * hx;
        turn > 0 || (turn == 0 && rx * hx + side * hy >= 0)
    }
}

} // verus!
