//! Edge functions, barycentric weights, interpolation and index helpers.
use crate::arith::lemma_cancel_equal;
use crate::arith::lemma_cancel_order;
use crate::arith::lemma_cancel_strict_order;
use crate::arith::lemma_negate;
use crate::arith::lemma_product_of_differences;
use crate::arith::lemma_quotient_bounds;
use crate::arith::lemma_regroup;
use crate::arith::lemma_remainder_product;
use crate::arith::magnitude;
use crate::arith::lemma_scale_order;
use crate::arith::lemma_scale_strict_order;
use crate::arith::lemma_spread_three;
use crate::arith::lemma_spread_two;
use crate::arith::lemma_swap;
use crate::arith::lemma_zero_factor;
use crate::color::Color;
use crate::fixed::add_raw;
use crate::fixed::floor_div;
use crate::fixed::floor_div_i128;
use crate::fixed::lemma_product_bound;
use crate::fixed::saturate;
use crate::fixed::saturate_i128;
use crate::fixed::Fixed;
use crate::fixed::sub_raw;
use crate::fixed::Linear;
use crate::frame::pixel_index;
use crate::frame::Frame;
use crate::vector::Vec2;
use crate::vector::Vec3;
use vstd::arithmetic::div_mod::lemma_fundamental_div_mod;
use vstd::prelude::*;

verus! {

/// The edge function on plain coordinates: twice the signed area of the
/// triangle `a`, `b`, `p`, positive when the three points turn clockwise on
/// a screen whose y axis points down.
pub open spec fn edge(ax: int, ay: int, bx: int, by: int, px: int, py: int) -> int {
    (px - ax) * (by - ay) - (py - ay) * (bx - ax)
}

/// The edge function of three points, over their raw coordinates. The result
/// is exact; its unit is the square of the coordinate unit.
pub open spec fn edge_spec(a: Vec2, b: Vec2, p: Vec2) -> int {
    edge(
        a.x.raw as int,
        a.y.raw as int,
        b.x.raw as int,
        b.y.raw as int,
        p.x.raw as int,
        p.y.raw as int,
    )
}

/// A point is inside a triangle when the three sub-areas it spans with the
/// triangle's edges are all strictly positive. Points on an edge are outside.
pub open spec fn inside(point: Vec2, v0: Vec2, v1: Vec2, v2: Vec2) -> bool {
    &&& edge_spec(point, v1, v2) > 0
    &&& edge_spec(point, v2, v0) > 0
    &&& edge_spec(point, v0, v1) > 0
}

/// The barycentric weights of `point`: each sub-area over the whole area,
/// rounded down, the last weight taking the remainder so that the three sum
/// to exactly one.
pub open spec fn weights_spec(point: Vec2, v0: Vec2, v1: Vec2, v2: Vec2) -> Vec3 {
    let area = edge_spec(v0, v1, v2);
    let x = (edge_spec(point, v1, v2) * 65536) / area;
    let y = (edge_spec(point, v2, v0) * 65536) / area;
    Vec3 {
        x: Fixed { raw: x as i32 },
        y: Fixed { raw: y as i32 },
        z: Fixed { raw: (65536 - x - y) as i32 },
    }
}

/// Interpolation `min + (max - min) * t`.
pub open spec fn lerp_spec<T: Linear>(min: T, max: T, t: Fixed) -> T {
    min.add_spec(max.sub_spec(min).mul_spec(t))
}

/// Raw result of mapping `v` from the range `a1..a2` to the range `b1..b2`:
/// the exact affine image, rounded down once and saturated.
pub open spec fn map_raw(v: int, a1: int, a2: int, b1: int, b2: int) -> int {
    saturate(b1 + floor_div((v - a1) * (b2 - b1), a2 - a1))
}

/// The whole part of a coordinate as an index; negative coordinates give zero.
pub open spec fn index_part(raw: int) -> int {
    if raw < 0 {
        0
    } else {
        raw / 65536
    }
}

pub fn edge_function_cw(v0: Vec2, v1: Vec2, p: Vec2) -> (r: i128)
    ensures
        r == edge_spec(v0, v1, p),
        -0x2_0000_0000_0000_0000 <= r <= 0x2_0000_0000_0000_0000,
{
    let dx: i128 = p.x.raw as i128 - v0.x.raw as i128;
    let dy: i128 = p.y.raw as i128 - v0.y.raw as i128;
    let ex: i128 = v1.x.raw as i128 - v0.x.raw as i128;
    let ey: i128 = v1.y.raw as i128 - v0.y.raw as i128;
    proof {
        lemma_product_bound(dx as int, ey as int);
        lemma_product_bound(dy as int, ex as int);
    }
    dx * ey - dy * ex
}

/// The edge function is affine in its first point.
proof fn lemma_edge_affine(px: int, py: int, ax: int, ay: int, bx: int, by: int)
    ensures
        edge(px, py, ax, ay, bx, by) == (bx * ay - by * ax) + px * (by - ay) + py * (ax - bx),
{
    lemma_product_of_differences(bx, px, ay, py);
    lemma_product_of_differences(by, py, ax, px);
    lemma_spread_two(px, by, ay);
    lemma_spread_two(py, ax, bx);
    lemma_swap(bx, py);
    lemma_swap(by, px);
    lemma_swap(px, py);
}

/// Scaling an affine form by `t`.
proof fn lemma_scale_affine(m: int, k: int, p: int, c: int, q: int, d: int, t: int)
    requires
        m == k + p * c + q * d,
    ensures
        m * t == k * t + p * (c * t) + q * (d * t),
        t * m == t * k + (t * p) * c + (t * q) * d,
{
    lemma_spread_three(t, k, p * c, q * d);
    lemma_regroup(p, c, t);
    lemma_regroup(q, d, t);
    lemma_regroup(t, p, c);
    lemma_regroup(t, q, d);
}

/// Equal factors give equal products, either way round.
proof fn lemma_same_product(p: int, u: int, v: int)
    requires
        u == v,
    ensures
        p * u == p * v,
        p * u == v * p,
{
    lemma_swap(p, v);
}

/// A difference of two products, scaled: the scale moves into each product.
proof fn lemma_scale_difference(a: int, b: int, c: int, d: int, t: int)
    ensures
        (a * b - c * d) * t == (t * a) * b - (t * d) * c,
{
    lemma_spread_two(t, a * b, c * d);
    lemma_regroup(a, b, t);
    lemma_regroup(c, d, t);
}

/// The sub-areas of a point, each weighted by an arbitrary integer, written
/// out by the constant, `px` and `py` parts of the three edge functions.
proof fn lemma_weighted_sub_areas(
    px: int,
    py: int,
    x0: int,
    y0: int,
    x1: int,
    y1: int,
    x2: int,
    y2: int,
    t0: int,
    t1: int,
    t2: int,
)
    ensures
        edge(px, py, x1, y1, x2, y2) * t0 + edge(px, py, x2, y2, x0, y0) * t1 + edge(
            px,
            py,
            x0,
            y0,
            x1,
            y1,
        ) * t2 == ((x2 * y1 - y2 * x1) * t0 + (x0 * y2 - y0 * x2) * t1 + (x1 * y0 - y1 * x0) * t2)
            + px * ((y2 - y1) * t0 + (y0 - y2) * t1 + (y1 - y0) * t2) + py * ((x1 - x2) * t0 + (x2
            - x0) * t1 + (x0 - x1) * t2),
{
    let m0 = edge(px, py, x1, y1, x2, y2);
    let m1 = edge(px, py, x2, y2, x0, y0);
    let m2 = edge(px, py, x0, y0, x1, y1);
    lemma_edge_affine(px, py, x1, y1, x2, y2);
    lemma_edge_affine(px, py, x2, y2, x0, y0);
    lemma_edge_affine(px, py, x0, y0, x1, y1);
    lemma_scale_affine(m0, x2 * y1 - y2 * x1, px, y2 - y1, py, x1 - x2, t0);
    lemma_scale_affine(m1, x0 * y2 - y0 * x2, px, y0 - y2, py, x2 - x0, t1);
    lemma_scale_affine(m2, x1 * y0 - y1 * x0, px, y1 - y0, py, x0 - x1, t2);
    lemma_spread_three(px, (y2 - y1) * t0, (y0 - y2) * t1, (y1 - y0) * t2);
    lemma_spread_three(py, (x1 - x2) * t0, (x2 - x0) * t1, (x0 - x1) * t2);
}

/// Every product of two of the six coordinates, either way round.
proof fn lemma_coordinate_swaps(x0: int, y0: int, x1: int, y1: int, x2: int, y2: int)
    ensures
        x0 * y0 == y0 * x0,
        x0 * y1 == y1 * x0,
        x0 * y2 == y2 * x0,
        x1 * y0 == y0 * x1,
        x1 * y1 == y1 * x1,
        x1 * y2 == y2 * x1,
        x2 * y0 == y0 * x2,
        x2 * y1 == y1 * x2,
        x2 * y2 == y2 * x2,
        x0 * x1 == x1 * x0,
        x0 * x2 == x2 * x0,
        x1 * x2 == x2 * x1,
        y0 * y1 == y1 * y0,
        y0 * y2 == y2 * y0,
        y1 * y2 == y2 * y1,
{
    lemma_swap(x0, y0);
    lemma_swap(x0, y1);
    lemma_swap(x0, y2);
    lemma_swap(x1, y0);
    lemma_swap(x1, y1);
    lemma_swap(x1, y2);
    lemma_swap(x2, y0);
    lemma_swap(x2, y1);
    lemma_swap(x2, y2);
    lemma_swap(x0, x1);
    lemma_swap(x0, x2);
    lemma_swap(x1, x2);
    lemma_swap(y0, y1);
    lemma_swap(y0, y2);
    lemma_swap(y1, y2);
}

/// The area of a triangle as a sum of three determinants, and the area
/// taken from each of its vertices in turn.
proof fn lemma_area_forms(x0: int, y0: int, x1: int, y1: int, x2: int, y2: int)
    ensures
        (x2 * y1 - y2 * x1) + (x0 * y2 - y0 * x2) + (x1 * y0 - y1 * x0) == edge(
            x0,
            y0,
            x1,
            y1,
            x2,
            y2,
        ),
        edge(x1, y1, x2, y2, x0, y0) == edge(x0, y0, x1, y1, x2, y2),
        edge(x2, y2, x0, y0, x1, y1) == edge(x0, y0, x1, y1, x2, y2),
{
    lemma_coordinate_swaps(x0, y0, x1, y1, x2, y2);
    lemma_product_of_differences(x2, x0, y1, y0);
    lemma_product_of_differences(y2, y0, x1, x0);
    lemma_product_of_differences(x0, x1, y2, y1);
    lemma_product_of_differences(y0, y1, x2, x1);
    lemma_product_of_differences(x1, x2, y0, y2);
    lemma_product_of_differences(y1, y2, x0, x2);
}

/// The determinant identities behind barycentric reconstruction.
proof fn lemma_cramer(x0: int, y0: int, x1: int, y1: int, x2: int, y2: int)
    ensures
        (x2 * y1 - y2 * x1) * x0 + (x0 * y2 - y0 * x2) * x1 + (x1 * y0 - y1 * x0) * x2 == 0,
        (x2 * y1 - y2 * x1) * y0 + (x0 * y2 - y0 * x2) * y1 + (x1 * y0 - y1 * x0) * y2 == 0,
        (y2 - y1) * x0 + (y0 - y2) * x1 + (y1 - y0) * x2 == edge(x0, y0, x1, y1, x2, y2),
        (x1 - x2) * x0 + (x2 - x0) * x1 + (x0 - x1) * x2 == 0,
        (y2 - y1) * y0 + (y0 - y2) * y1 + (y1 - y0) * y2 == 0,
        (x1 - x2) * y0 + (x2 - x0) * y1 + (x0 - x1) * y2 == edge(x0, y0, x1, y1, x2, y2),
{
    lemma_coordinate_swaps(x0, y0, x1, y1, x2, y2);
    lemma_area_forms(x0, y0, x1, y1, x2, y2);
    // the two sums of determinants times a coordinate
    lemma_scale_difference(x2, y1, y2, x1, x0);
    lemma_scale_difference(x0, y2, y0, x2, x1);
    lemma_scale_difference(x1, y0, y1, x0, x2);
    lemma_scale_difference(x2, y1, y2, x1, y0);
    lemma_scale_difference(x0, y2, y0, x2, y1);
    lemma_scale_difference(x1, y0, y1, x0, y2);
    lemma_regroup(y0, x2, y1);
    lemma_regroup(y0, x1, y2);
    lemma_regroup(y1, x0, y2);
    // the four sums of a difference times a coordinate
    lemma_spread_two(x0, y2, y1);
    lemma_spread_two(x1, y0, y2);
    lemma_spread_two(x2, y1, y0);
    lemma_spread_two(x0, x1, x2);
    lemma_spread_two(x1, x2, x0);
    lemma_spread_two(x2, x0, x1);
    lemma_spread_two(y0, y2, y1);
    lemma_spread_two(y1, y0, y2);
    lemma_spread_two(y2, y1, y0);
    lemma_spread_two(y0, x1, x2);
    lemma_spread_two(y1, x2, x0);
    lemma_spread_two(y2, x0, x1);
}

/// The three sub-areas of a point sum to the area of the triangle, and
/// weighting the vertices by them gives the point scaled by the area: the
/// sub-areas over the area are weights that sum to one and reproduce the
/// point.
pub proof fn lemma_sub_areas(point: Vec2, v0: Vec2, v1: Vec2, v2: Vec2)
    ensures
        edge_spec(point, v1, v2) + edge_spec(point, v2, v0) + edge_spec(point, v0, v1)
            == edge_spec(v0, v1, v2),
        edge_spec(point, v1, v2) * v0.x.raw + edge_spec(point, v2, v0) * v1.x.raw + edge_spec(
            point,
            v0,
            v1,
        ) * v2.x.raw == edge_spec(v0, v1, v2) * point.x.raw,
        edge_spec(point, v1, v2) * v0.y.raw + edge_spec(point, v2, v0) * v1.y.raw + edge_spec(
            point,
            v0,
            v1,
        ) * v2.y.raw == edge_spec(v0, v1, v2) * point.y.raw,
{
    let px = point.x.raw as int;
    let py = point.y.raw as int;
    let x0 = v0.x.raw as int;
    let y0 = v0.y.raw as int;
    let x1 = v1.x.raw as int;
    let y1 = v1.y.raw as int;
    let x2 = v2.x.raw as int;
    let y2 = v2.y.raw as int;
    let area = edge(x0, y0, x1, y1, x2, y2);
    lemma_cramer(x0, y0, x1, y1, x2, y2);
    lemma_area_forms(x0, y0, x1, y1, x2, y2);
    lemma_weighted_sub_areas(px, py, x0, y0, x1, y1, x2, y2, x0, x1, x2);
    lemma_weighted_sub_areas(px, py, x0, y0, x1, y1, x2, y2, y0, y1, y2);
    lemma_weighted_sub_areas(px, py, x0, y0, x1, y1, x2, y2, 1, 1, 1);
    lemma_same_product(px, (y2 - y1) * 1 + (y0 - y2) * 1 + (y1 - y0) * 1, 0);
    lemma_same_product(py, (x1 - x2) * 1 + (x2 - x0) * 1 + (x0 - x1) * 1, 0);
    lemma_same_product(px, (y2 - y1) * x0 + (y0 - y2) * x1 + (y1 - y0) * x2, area);
    lemma_same_product(py, (x1 - x2) * x0 + (x2 - x0) * x1 + (x0 - x1) * x2, 0);
    lemma_same_product(px, (y2 - y1) * y0 + (y0 - y2) * y1 + (y1 - y0) * y2, 0);
    lemma_same_product(py, (x1 - x2) * y0 + (x2 - x0) * y1 + (x0 - x1) * y2, area);
}

/// The edge function of a weighted mean of three points is the weighted
/// mean of their edge functions.
proof fn lemma_edge_of_mean(
    px: int,
    py: int,
    ax: int,
    ay: int,
    bx: int,
    by: int,
    x0: int,
    y0: int,
    x1: int,
    y1: int,
    x2: int,
    y2: int,
    a0: int,
    a1: int,
    a2: int,
)
    requires
        (a0 + a1 + a2) * px == a0 * x0 + a1 * x1 + a2 * x2,
        (a0 + a1 + a2) * py == a0 * y0 + a1 * y1 + a2 * y2,
    ensures
        (a0 + a1 + a2) * edge(px, py, ax, ay, bx, by) == a0 * edge(x0, y0, ax, ay, bx, by) + a1
            * edge(x1, y1, ax, ay, bx, by) + a2 * edge(x2, y2, ax, ay, bx, by),
{
    let k = bx * ay - by * ax;
    let c = by - ay;
    let d = ax - bx;
    let s = a0 + a1 + a2;
    lemma_edge_affine(px, py, ax, ay, bx, by);
    lemma_edge_affine(x0, y0, ax, ay, bx, by);
    lemma_edge_affine(x1, y1, ax, ay, bx, by);
    lemma_edge_affine(x2, y2, ax, ay, bx, by);
    lemma_scale_affine(edge(px, py, ax, ay, bx, by), k, px, c, py, d, s);
    lemma_scale_affine(edge(x0, y0, ax, ay, bx, by), k, x0, c, y0, d, a0);
    lemma_scale_affine(edge(x1, y1, ax, ay, bx, by), k, x1, c, y1, d, a1);
    lemma_scale_affine(edge(x2, y2, ax, ay, bx, by), k, x2, c, y2, d, a2);
    lemma_spread_three(k, a0, a1, a2);
    lemma_spread_three(c, a0 * x0, a1 * x1, a2 * x2);
    lemma_spread_three(d, a0 * y0, a1 * y1, a2 * y2);
}

/// Signs in a product `s * m == a * area` with `s` and `area` positive.
proof fn lemma_sign_of_weight(s: int, m: int, a: int, area: int)
    requires
        s > 0,
        area > 0,
        s * m == a * area,
    ensures
        a > 0 ==> m > 0,
        a < 0 ==> m < 0,
        a == 0 ==> m == 0,
{
    lemma_swap(s, m);
    lemma_zero_factor(s);
    lemma_zero_factor(area);
    if a > 0 {
        lemma_scale_strict_order(0, a, area);
        lemma_cancel_strict_order(0, m, s);
    } else if a < 0 {
        lemma_scale_strict_order(a, 0, area);
        lemma_cancel_strict_order(m, 0, s);
    } else {
        lemma_cancel_equal(m, 0, s);
    }
}

/// An edge function with the same point twice is zero.
proof fn lemma_edge_of_repeated_point(ax: int, ay: int, bx: int, by: int)
    ensures
        edge(ax, ay, ax, ay, bx, by) == 0,
        edge(ax, ay, bx, by, ax, ay) == 0,
        edge(bx, by, ax, ay, ax, ay) == 0,
{
    lemma_zero_factor(bx - ax);
    lemma_zero_factor(by - ay);
    lemma_swap(ax - bx, ay - by);
}

/// Sign of the sub-areas. Take a clockwise triangle and a point that is the
/// mean of its vertices under weights `a0`, `a1`, `a2` of positive sum. Then
/// each sub-area has the sign of its weight: a point strictly inside the
/// triangle (all weights positive) has three positive sub-areas, and a point
/// strictly outside (some weight negative) has a negative one, so it fails
/// the inside test.
pub proof fn lemma_sub_area_signs(
    point: Vec2,
    v0: Vec2,
    v1: Vec2,
    v2: Vec2,
    a0: int,
    a1: int,
    a2: int,
)
    requires
        edge_spec(v0, v1, v2) > 0,
        a0 + a1 + a2 > 0,
        (a0 + a1 + a2) * point.x.raw == a0 * v0.x.raw + a1 * v1.x.raw + a2 * v2.x.raw,
        (a0 + a1 + a2) * point.y.raw == a0 * v0.y.raw + a1 * v1.y.raw + a2 * v2.y.raw,
    ensures
        (a0 + a1 + a2) * edge_spec(point, v1, v2) == a0 * edge_spec(v0, v1, v2),
        (a0 + a1 + a2) * edge_spec(point, v2, v0) == a1 * edge_spec(v0, v1, v2),
        (a0 + a1 + a2) * edge_spec(point, v0, v1) == a2 * edge_spec(v0, v1, v2),
        a0 > 0 && a1 > 0 && a2 > 0 ==> inside(point, v0, v1, v2),
        a0 < 0 || a1 < 0 || a2 < 0 ==> !inside(point, v0, v1, v2),
        a0 < 0 ==> edge_spec(point, v1, v2) < 0,
        a1 < 0 ==> edge_spec(point, v2, v0) < 0,
        a2 < 0 ==> edge_spec(point, v0, v1) < 0,
{
    let px = point.x.raw as int;
    let py = point.y.raw as int;
    let x0 = v0.x.raw as int;
    let y0 = v0.y.raw as int;
    let x1 = v1.x.raw as int;
    let y1 = v1.y.raw as int;
    let x2 = v2.x.raw as int;
    let y2 = v2.y.raw as int;
    let s = a0 + a1 + a2;
    let area = edge(x0, y0, x1, y1, x2, y2);
    lemma_area_forms(x0, y0, x1, y1, x2, y2);
    lemma_edge_of_repeated_point(x1, y1, x2, y2);
    lemma_edge_of_repeated_point(x2, y2, x0, y0);
    lemma_edge_of_repeated_point(x0, y0, x1, y1);
    // Each sub-area is an edge function of the point against one edge; the
    // two vertices on that edge contribute nothing.
    lemma_edge_of_mean(px, py, x1, y1, x2, y2, x0, y0, x1, y1, x2, y2, a0, a1, a2);
    lemma_same_product(a1, edge(x1, y1, x1, y1, x2, y2), 0);
    lemma_same_product(a2, edge(x2, y2, x1, y1, x2, y2), 0);
    assert(s * edge(px, py, x1, y1, x2, y2) == a0 * area);

    lemma_edge_of_mean(px, py, x2, y2, x0, y0, x0, y0, x1, y1, x2, y2, a0, a1, a2);
    lemma_same_product(a0, edge(x0, y0, x2, y2, x0, y0), 0);
    lemma_same_product(a2, edge(x2, y2, x2, y2, x0, y0), 0);
    lemma_same_product(a1, edge(x1, y1, x2, y2, x0, y0), area);
    assert(s * edge(px, py, x2, y2, x0, y0) == a1 * area);

    lemma_edge_of_mean(px, py, x0, y0, x1, y1, x0, y0, x1, y1, x2, y2, a0, a1, a2);
    lemma_same_product(a0, edge(x0, y0, x0, y0, x1, y1), 0);
    lemma_same_product(a1, edge(x1, y1, x0, y0, x1, y1), 0);
    lemma_same_product(a2, edge(x2, y2, x0, y0, x1, y1), area);
    assert(s * edge(px, py, x0, y0, x1, y1) == a2 * area);

    lemma_sign_of_weight(s, edge(px, py, x1, y1, x2, y2), a0, area);
    lemma_sign_of_weight(s, edge(px, py, x2, y2, x0, y0), a1, area);
    lemma_sign_of_weight(s, edge(px, py, x0, y0, x1, y1), a2, area);
}

/// The weights of an inside point are non-negative, the last one positive,
/// and they sum to exactly one. Each of the first two is its sub-area over
/// the area, rounded down.
pub proof fn lemma_weights_partition(point: Vec2, v0: Vec2, v1: Vec2, v2: Vec2)
    requires
        inside(point, v0, v1, v2),
    ensures
        edge_spec(v0, v1, v2) > 0,
        0 <= weights_spec(point, v0, v1, v2).x.raw < 65536,
        0 <= weights_spec(point, v0, v1, v2).y.raw < 65536,
        0 < weights_spec(point, v0, v1, v2).z.raw <= 65536,
        weights_spec(point, v0, v1, v2).x.raw + weights_spec(point, v0, v1, v2).y.raw
            + weights_spec(point, v0, v1, v2).z.raw == 65536,
        weights_spec(point, v0, v1, v2).x.raw == (edge_spec(point, v1, v2) * 65536) / edge_spec(
            v0,
            v1,
            v2,
        ),
        weights_spec(point, v0, v1, v2).y.raw == (edge_spec(point, v2, v0) * 65536) / edge_spec(
            v0,
            v1,
            v2,
        ),
{
    lemma_sub_areas(point, v0, v1, v2);
    let area = edge_spec(v0, v1, v2);
    let m0 = edge_spec(point, v1, v2);
    let m1 = edge_spec(point, v2, v0);
    let x = (m0 * 65536) / area;
    let y = (m1 * 65536) / area;
    lemma_quotient_bounds(m0 * 65536, area);
    lemma_quotient_bounds(m1 * 65536, area);
    // neither quotient is negative
    lemma_spread_two(area, x, 1);
    lemma_spread_two(area, y, 1);
    lemma_zero_factor(area);
    lemma_cancel_strict_order(0, x + 1, area);
    lemma_cancel_strict_order(0, y + 1, area);
    // together they stay below one
    lemma_spread_two(area, x, y);
    lemma_cancel_strict_order(x + y, 65536, area);
}

/// How far the blend of three coordinates by weights `w0`, `w1`, `w2`, in
/// units of 1/65536, lies from the coordinate `p` it stands for.
pub open spec fn blend_error(w: Vec3, c0: int, c1: int, c2: int, p: int) -> int {
    w.x.raw * c0 + w.y.raw * c1 + w.z.raw * c2 - 65536 * p
}

/// One coordinate of the blend of the vertices by the weights of an inside
/// point, against that coordinate of the point.
proof fn lemma_blend_error(
    area: int,
    m0: int,
    m1: int,
    m2: int,
    w0: int,
    w1: int,
    w2: int,
    c0: int,
    c1: int,
    c2: int,
    p: int,
)
    requires
        area > 0,
        m0 + m1 + m2 == area,
        m0 * c0 + m1 * c1 + m2 * c2 == area * p,
        w0 * area <= m0 * 65536 < w0 * area + area,
        w1 * area <= m1 * 65536 < w1 * area + area,
        w2 == 65536 - w0 - w1,
    ensures
        -(magnitude(c2 - c0) + magnitude(c2 - c1)) <= w0 * c0 + w1 * c1 + w2 * c2 - 65536 * p
            <= magnitude(c2 - c0) + magnitude(c2 - c1),
{
    let r0 = m0 * 65536 - w0 * area;
    let r1 = m1 * 65536 - w1 * area;
    let d = w0 * c0 + w1 * c1 + w2 * c2 - 65536 * p;
    let e = magnitude(c2 - c0) + magnitude(c2 - c1);
    // area * d == r0 * (c2 - c0) + r1 * (c2 - c1)
    assert(area * d == r0 * (c2 - c0) + r1 * (c2 - c1)) by {
        lemma_spread_two(area, w0 * c0 + w1 * c1 + w2 * c2, 65536 * p);
        lemma_spread_three(area, w0 * c0, w1 * c1, w2 * c2);
        lemma_regroup(area, w0, c0);
        lemma_regroup(area, w1, c1);
        lemma_regroup(area, w2, c2);
        lemma_swap(area, w0);
        lemma_swap(area, w1);
        lemma_swap(area, w2);
        // area * w2 == 65536 * m2 + r0 + r1
        lemma_spread_three(area, 65536, -w0, -w1);
        lemma_spread_two(area, 0, w0);
        lemma_spread_two(area, 0, w1);
        lemma_zero_factor(area);
        assert(area * w2 == 65536 * m2 + r0 + r1);
        // each product of a scaled sub-area and a coordinate
        lemma_spread_two(c0, m0 * 65536, r0);
        lemma_spread_two(c1, m1 * 65536, r1);
        lemma_spread_three(c2, 65536 * m2, r0, r1);
        lemma_regroup(m0, 65536, c0);
        lemma_regroup(m1, 65536, c1);
        lemma_regroup(65536, m2, c2);
        lemma_spread_three(65536, m0 * c0, m1 * c1, m2 * c2);
        lemma_regroup(area, 65536, p);
        lemma_swap(area, 65536);
        lemma_regroup(65536, area, p);
        lemma_spread_two(r0, c2, c0);
        lemma_spread_two(r1, c2, c1);
    }
    lemma_remainder_product(r0, area, c2 - c0);
    lemma_remainder_product(r1, area, c2 - c1);
    lemma_spread_two(area, magnitude(c2 - c0), magnitude(c2 - c1));
    assert(area * (-e) == -(area * e)) by {
        lemma_spread_two(area, 0, e);
        lemma_zero_factor(area);
    }
    lemma_swap(area, d);
    lemma_swap(area, e);
    lemma_swap(area, -e);
    lemma_cancel_order(d, e, area);
    lemma_cancel_order(-e, d, area);
}

/// The weights of an inside point reproduce the point up to rounding:
/// blending the vertices by the weights misses each coordinate of the point
/// by no more, in units of 1/65536, than the triangle is wide (or tall) in
/// whole units, counted from its last vertex.
pub proof fn lemma_weights_reproduce_point(point: Vec2, v0: Vec2, v1: Vec2, v2: Vec2)
    requires
        inside(point, v0, v1, v2),
    ensures
        magnitude(
            blend_error(
                weights_spec(point, v0, v1, v2),
                v0.x.raw as int,
                v1.x.raw as int,
                v2.x.raw as int,
                point.x.raw as int,
            ),
        ) <= magnitude(v2.x.raw - v0.x.raw) + magnitude(v2.x.raw - v1.x.raw),
        magnitude(
            blend_error(
                weights_spec(point, v0, v1, v2),
                v0.y.raw as int,
                v1.y.raw as int,
                v2.y.raw as int,
                point.y.raw as int,
            ),
        ) <= magnitude(v2.y.raw - v0.y.raw) + magnitude(v2.y.raw - v1.y.raw),
{
    lemma_sub_areas(point, v0, v1, v2);
    lemma_weights_partition(point, v0, v1, v2);
    let area = edge_spec(v0, v1, v2);
    let m0 = edge_spec(point, v1, v2);
    let m1 = edge_spec(point, v2, v0);
    let m2 = edge_spec(point, v0, v1);
    let w = weights_spec(point, v0, v1, v2);
    lemma_quotient_bounds(m0 * 65536, area);
    lemma_quotient_bounds(m1 * 65536, area);
    lemma_blend_error(
        area,
        m0,
        m1,
        m2,
        w.x.raw as int,
        w.y.raw as int,
        w.z.raw as int,
        v0.x.raw as int,
        v1.x.raw as int,
        v2.x.raw as int,
        point.x.raw as int,
    );
    lemma_blend_error(
        area,
        m0,
        m1,
        m2,
        w.x.raw as int,
        w.y.raw as int,
        w.z.raw as int,
        v0.y.raw as int,
        v1.y.raw as int,
        v2.y.raw as int,
        point.y.raw as int,
    );
}

/// An inside point lies within the bounding box of the triangle.
pub proof fn lemma_inside_bounds(point: Vec2, v0: Vec2, v1: Vec2, v2: Vec2)
    requires
        inside(point, v0, v1, v2),
    ensures
        v0.x.raw <= point.x.raw || v1.x.raw <= point.x.raw || v2.x.raw <= point.x.raw,
        v0.x.raw >= point.x.raw || v1.x.raw >= point.x.raw || v2.x.raw >= point.x.raw,
        v0.y.raw <= point.y.raw || v1.y.raw <= point.y.raw || v2.y.raw <= point.y.raw,
        v0.y.raw >= point.y.raw || v1.y.raw >= point.y.raw || v2.y.raw >= point.y.raw,
{
    lemma_sub_areas(point, v0, v1, v2);
    let m0 = edge_spec(point, v1, v2);
    let m1 = edge_spec(point, v2, v0);
    let m2 = edge_spec(point, v0, v1);
    lemma_mean_between(
        m0,
        m1,
        m2,
        v0.x.raw as int,
        v1.x.raw as int,
        v2.x.raw as int,
        point.x.raw as int,
    );
    lemma_mean_between(
        m0,
        m1,
        m2,
        v0.y.raw as int,
        v1.y.raw as int,
        v2.y.raw as int,
        point.y.raw as int,
    );
}

/// A mean under positive weights is not below all of its values, nor above
/// all of them.
proof fn lemma_mean_between(m0: int, m1: int, m2: int, c0: int, c1: int, c2: int, p: int)
    requires
        m0 > 0,
        m1 > 0,
        m2 > 0,
        m0 * c0 + m1 * c1 + m2 * c2 == (m0 + m1 + m2) * p,
    ensures
        c0 <= p || c1 <= p || c2 <= p,
        c0 >= p || c1 >= p || c2 >= p,
{
    lemma_spread_three(p, m0, m1, m2);
    if c0 > p && c1 > p && c2 > p {
        lemma_scale_strict_order(p, c0, m0);
        lemma_scale_strict_order(p, c1, m1);
        lemma_scale_strict_order(p, c2, m2);
    }
    if c0 < p && c1 < p && c2 < p {
        lemma_scale_strict_order(c0, p, m0);
        lemma_scale_strict_order(c1, p, m1);
        lemma_scale_strict_order(c2, p, m2);
    }
}

/// The barycentric weights of `point` in the triangle `v0`, `v1`, `v2` of
/// the given area, or `None` when the point is not strictly inside.
pub fn barycentric_coordinates(point: Vec2, v0: Vec2, v1: Vec2, v2: Vec2, area: i128) -> (r:
    Option<Vec3>)
    requires
        area == edge_spec(v0, v1, v2),
    ensures
        r.is_some() == inside(point, v0, v1, v2),
        r.is_some() ==> r.unwrap() == weights_spec(point, v0, v1, v2),
        r.is_some() ==> r.unwrap().x.raw + r.unwrap().y.raw + r.unwrap().z.raw == 65536,
        r.is_some() ==> r.unwrap().x.raw >= 0 && r.unwrap().y.raw >= 0 && r.unwrap().z.raw > 0,
{
    let m0: i128 = edge_function_cw(point, v1, v2);
    let m1: i128 = edge_function_cw(point, v2, v0);
    let m2: i128 = edge_function_cw(point, v0, v1);
    if m0 > 0 && m1 > 0 && m2 > 0 {
        proof {
            lemma_weights_partition(point, v0, v1, v2);
        }
        let x: i128 = (m0 * 65536) / area;
        let y: i128 = (m1 * 65536) / area;
        Some(
            Vec3 {
                x: Fixed { raw: x as i32 },
                y: Fixed { raw: y as i32 },
                z: Fixed { raw: (65536 - x - y) as i32 },
            },
        )
    } else {
        None
    }
}

/// Interpolates from `min` (at `t` zero) to `max` (at `t` one).
pub fn lerp<T: Linear + Copy>(min: T, max: T, t: Fixed) -> (r: T)
    ensures
        r == lerp_spec(min, max, t),
{
    min.add(max.sub(min).mul(t))
}

/// Maps `v` from the range `a1..a2` to the range `b1..b2`. The source range
/// must not be empty.
pub fn map_to_range(v: Fixed, a1: Fixed, a2: Fixed, b1: Fixed, b2: Fixed) -> (r: Fixed)
    requires
        a1.raw != a2.raw,
    ensures
        r.raw == map_raw(
            v.raw as int,
            a1.raw as int,
            a2.raw as int,
            b1.raw as int,
            b2.raw as int,
        ),
{
    let dv: i128 = v.raw as i128 - a1.raw as i128;
    let db: i128 = b2.raw as i128 - b1.raw as i128;
    let da: i128 = a2.raw as i128 - a1.raw as i128;
    proof {
        lemma_product_bound(dv as int, db as int);
    }
    let q: i128 = floor_div_i128(dv * db, da);
    proof {
        lemma_floor_div_bound(dv * db, da as int);
    }
    saturate_fixed(b1.raw as i128 + q)
}

/// A floor quotient is no larger in magnitude than its numerator.
proof fn lemma_floor_div_bound(n: int, d: int)
    requires
        d != 0,
    ensures
        n >= 0 ==> -n - 1 <= floor_div(n, d) <= n,
        n < 0 ==> n <= floor_div(n, d) <= -n,
{
    let (num, den) = if d > 0 {
        (n, d)
    } else {
        (-n, -d)
    };
    lemma_quotient_bounds(num, den);
    let q = num / den;
    lemma_spread_two(den, q, 1);
    lemma_zero_factor(den);
    if num >= 0 {
        // 0 <= q <= q * den <= num
        lemma_cancel_strict_order(0, q + 1, den);
        lemma_scale_order(1, den, q);
    } else {
        // num < (q + 1) * den <= q + 1 <= 0
        lemma_cancel_strict_order(q, 0, den);
        lemma_scale_order(1, den, -(q + 1));
        lemma_spread_two(-(q + 1), den, 1);
        lemma_negate(q + 1, den);
    }
}

/// The fixed-point value of a wide raw integer, saturated.
fn saturate_fixed(x: i128) -> (r: Fixed)
    ensures
        r.raw == saturate(x as int),
{
    Fixed { raw: saturate_i128(x) }
}

/// Splits a linear index into its column and its row within the column,
/// for columns of `height` entries.
pub fn index_to_coords(p: usize, height: usize) -> (r: (usize, usize))
    requires
        height != 0,
    ensures
        r.0 == p / height,
        r.1 == p % height,
        r.0 * height + r.1 == p,
{
    proof {
        lemma_fundamental_div_mod(p as int, height as int);
        lemma_swap(height as int, p as int / height as int);
    }
    (p / height, p % height)
}

/// The linear index of the pixel a coordinate falls in, for columns of
/// `height` entries: the whole part of `x` times `height`, plus the whole
/// part of `y`. Negative coordinates count as zero.
pub fn coords_to_index(coord: Vec2, height: usize) -> (r: usize)
    requires
        index_part(coord.x.raw as int) * height + index_part(coord.y.raw as int) <= usize::MAX,
    ensures
        r == index_part(coord.x.raw as int) * height + index_part(coord.y.raw as int),
{
    let x: usize = whole_part(coord.x);
    let y: usize = whole_part(coord.y);
    proof {
        lemma_scale_order(0, x as int, height as int);
    }
    x * height + y
}

/// The pixels after pixel `(x, y)` was plotted; a position outside a frame
/// of the given size changes nothing.
pub open spec fn plot_spec(pixels: Seq<u32>, width: int, height: int, x: int, y: int, color: u32) -> Seq<
    u32,
> {
    if 0 <= x < width && 0 <= y < height {
        pixels.update(pixel_index(x, y, height), color)
    } else {
        pixels
    }
}

/// The raw magnitude of a raw value, saturated.
pub open spec fn abs_raw(a: int) -> int {
    if a < 0 {
        saturate(-a)
    } else {
        a
    }
}

/// The walk of a line plotter, from the raw values it starts with.
pub struct LineWalk {
    /// Whether the line is steep: the walk then steps along `y` and drifts
    /// along `x`; otherwise it steps along `x` and drifts along `y`.
    pub steep: bool,
    /// The drifting coordinate.
    pub minor: int,
    /// One step of drift: one or minus one.
    pub minor_step: int,
    /// The error term: drift happens when it is not negative.
    pub error: int,
    /// Added to the error on a step with drift.
    pub error_drift: int,
    /// Added to the error on a step without drift.
    pub error_keep: int,
}

/// The pixels after a walk plotted the steps `major..end`.
pub open spec fn walk_spec(
    pixels: Seq<u32>,
    width: int,
    height: int,
    major: int,
    end: int,
    walk: LineWalk,
    color: u32,
) -> Seq<u32>
    decreases end - major,
{
    if major >= end {
        pixels
    } else {
        let plotted = if walk.steep {
            plot_spec(pixels, width, height, index_part(walk.minor), major, color)
        } else {
            plot_spec(pixels, width, height, major, index_part(walk.minor), color)
        };
        let next = if walk.error >= 0 {
            LineWalk {
                minor: add_raw(walk.minor, walk.minor_step),
                error: add_raw(walk.error, walk.error_drift),
                ..walk
            }
        } else {
            LineWalk { error: add_raw(walk.error, walk.error_keep), ..walk }
        };
        walk_spec(plotted, width, height, major + 1, end, next, color)
    }
}

/// The walk of a line from `v0` to `v1`, stepping along `x` when the line
/// is not steep and along `y` when it is. With `a` the extent along the
/// stepping axis and `b` the magnitude of the extent along the other, the
/// error starts at `2 b - a` and changes by `2 (b - a)` or by `2 b`.
pub open spec fn line_walk(v0: Vec2, v1: Vec2, steep: bool) -> LineWalk {
    let dx = sub_raw(v1.x.raw as int, v0.x.raw as int);
    let dy = sub_raw(v1.y.raw as int, v0.y.raw as int);
    let along = if steep {
        dy
    } else {
        dx
    };
    let across = if steep {
        dx
    } else {
        dy
    };
    let b = abs_raw(across);
    LineWalk {
        steep,
        minor: if steep {
            v0.x.raw as int
        } else {
            v0.y.raw as int
        },
        minor_step: if across < 0 {
            -65536
        } else {
            65536
        },
        error: sub_raw(saturate(2 * b), along),
        error_drift: saturate(2 * sub_raw(b, along)),
        error_keep: saturate(2 * b),
    }
}

/// The pixels after a line was plotted. A line that is wider than tall is
/// walked along `x`, any other along `y`, in both cases from the end with
/// the smaller stepping coordinate.
pub open spec fn plotline_spec(
    pixels: Seq<u32>,
    width: int,
    height: int,
    v0: Vec2,
    v1: Vec2,
    color: u32,
) -> Seq<u32> {
    let dx = sub_raw(v1.x.raw as int, v0.x.raw as int);
    let dy = sub_raw(v1.y.raw as int, v0.y.raw as int);
    if abs_raw(dy) < abs_raw(dx) {
        let (from, to) = if v0.x.raw > v1.x.raw {
            (v1, v0)
        } else {
            (v0, v1)
        };
        walk_spec(
            pixels,
            width,
            height,
            index_part(from.x.raw as int),
            index_part(to.x.raw as int),
            line_walk(from, to, false),
            color,
        )
    } else {
        let (from, to) = if v0.y.raw > v1.y.raw {
            (v1, v0)
        } else {
            (v0, v1)
        };
        walk_spec(
            pixels,
            width,
            height,
            index_part(from.y.raw as int),
            index_part(to.y.raw as int),
            line_walk(from, to, true),
            color,
        )
    }
}

/// The magnitude of a value, saturated.
fn abs(value: Fixed) -> (r: Fixed)
    ensures
        r.raw == abs_raw(value.raw as int),
{
    if value.raw < 0 {
        value.neg()
    } else {
        value
    }
}

/// Twice a value, saturated.
fn twice(value: Fixed) -> (r: Fixed)
    ensures
        r.raw == saturate(2 * value.raw),
{
    value.add(value)
}

/// The whole part of a coordinate as an index; negative coordinates give zero.
pub fn whole_part(value: Fixed) -> (r: usize)
    ensures
        r == index_part(value.raw as int),
        r <= 32767,
{
    if value.raw < 0 {
        0
    } else {
        (value.raw / 65536) as usize
    }
}

/// Walks a line and plots a pixel at every step.
fn plot_walk(
    v0: Vec2,
    v1: Vec2,
    steep: bool,
    color: Color,
    frame: &mut Frame,
)
    requires
        old(frame).wf(),
    ensures
        final(frame).wf(),
        final(frame).width == old(frame).width,
        final(frame).height == old(frame).height,
        final(frame).pixels@ == walk_spec(
            old(frame).pixels@,
            old(frame).width as int,
            old(frame).height as int,
            if steep {
                index_part(v0.y.raw as int)
            } else {
                index_part(v0.x.raw as int)
            },
            if steep {
                index_part(v1.y.raw as int)
            } else {
                index_part(v1.x.raw as int)
            },
            line_walk(v0, v1, steep),
            color.packed() as u32,
        ),
{
    let dx: Fixed = v1.x.sub(v0.x);
    let dy: Fixed = v1.y.sub(v0.y);
    let along: Fixed = if steep {
        dy
    } else {
        dx
    };
    let mut across: Fixed = if steep {
        dx
    } else {
        dy
    };
    let mut step: Fixed = Fixed::one();
    if across.raw < 0 {
        step = Fixed::from_raw(-65536);
        across = across.neg();
    }
    let mut d: Fixed = twice(across).sub(along);
    let drift: Fixed = twice(across.sub(along));
    let keep: Fixed = twice(across);
    let mut minor: Fixed = if steep {
        v0.x
    } else {
        v0.y
    };
    let start: usize = if steep {
        whole_part(v0.y)
    } else {
        whole_part(v0.x)
    };
    let end: usize = if steep {
        whole_part(v1.y)
    } else {
        whole_part(v1.x)
    };
    let packed: u32 = color.to_argb8();
    let ghost w = frame.width as int;
    let ghost h = frame.height as int;
    let ghost first = line_walk(v0, v1, steep);
    let mut major: usize = start;
    while major < end
        invariant
            frame.wf(),
            frame.width == w,
            frame.height == h,
            end <= 32767,
            packed == color.packed(),
            walk_spec(old(frame).pixels@, w, h, start as int, end as int, first, packed)
                == walk_spec(
                frame.pixels@,
                w,
                h,
                major as int,
                end as int,
                LineWalk {
                    minor: minor.raw as int,
                    error: d.raw as int,
                    minor_step: step.raw as int,
                    error_drift: drift.raw as int,
                    error_keep: keep.raw as int,
                    steep,
                },
                packed,
            ),
        decreases end - major,
    {
        let other: usize = whole_part(minor);
        if steep {
            frame.draw(other as u16, major as u16, packed);
        } else {
            frame.draw(major as u16, other as u16, packed);
        }
        if d.raw >= 0 {
            minor = minor.add(step);
            d = d.add(drift);
        } else {
            d = d.add(keep);
        }
        major += 1;
    }
}

/// Plots a line with an error term (Bresenham's algorithm), from the pixel
/// that holds `v0` up to, but not including, the step that holds `v1`.
pub fn plotline(v0: Vec2, v1: Vec2, color: Color, frame: &mut Frame)
    requires
        old(frame).wf(),
    ensures
        final(frame).wf(),
        final(frame).width == old(frame).width,
        final(frame).height == old(frame).height,
        final(frame).pixels@ == plotline_spec(
            old(frame).pixels@,
            old(frame).width as int,
            old(frame).height as int,
            v0,
            v1,
            color.packed() as u32,
        ),
{
    if abs(v1.y.sub(v0.y)).raw < abs(v1.x.sub(v0.x)).raw {
        if v0.x.raw > v1.x.raw {
            plotline_low(v1, v0, color, frame);
        } else {
            plotline_low(v0, v1, color, frame);
        }
    } else {
        if v0.y.raw > v1.y.raw {
            plotline_high(v1, v0, color, frame);
        } else {
            plotline_high(v0, v1, color, frame);
        }
    }
}

/// Plots a line that is wider than tall, walking along `x`.
fn plotline_low(v0: Vec2, v1: Vec2, color: Color, frame: &mut Frame)
    requires
        old(frame).wf(),
    ensures
        final(frame).wf(),
        final(frame).width == old(frame).width,
        final(frame).height == old(frame).height,
        final(frame).pixels@ == walk_spec(
            old(frame).pixels@,
            old(frame).width as int,
            old(frame).height as int,
            index_part(v0.x.raw as int),
            index_part(v1.x.raw as int),
            line_walk(v0, v1, false),
            color.packed() as u32,
        ),
{
    plot_walk(v0, v1, false, color, frame);
}

/// Plots a line that is at least as tall as wide, walking along `y`.
fn plotline_high(v0: Vec2, v1: Vec2, color: Color, frame: &mut Frame)
    requires
        old(frame).wf(),
    ensures
        final(frame).wf(),
        final(frame).width == old(frame).width,
        final(frame).height == old(frame).height,
        final(frame).pixels@ == walk_spec(
            old(frame).pixels@,
            old(frame).width as int,
            old(frame).height as int,
            index_part(v0.y.raw as int),
            index_part(v1.y.raw as int),
            line_walk(v0, v1, true),
            color.packed() as u32,
        ),
{
    plot_walk(v0, v1, true, color, frame);
}

} // verus!
