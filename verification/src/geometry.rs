//! Triangles in clip space: reordering, culling, near-plane clipping and
//! screen-space bounds.
use crate::arith::lemma_cancel_equal;
use crate::arith::lemma_cancel_order;
use crate::arith::lemma_product_of_differences;
use crate::arith::lemma_regroup;
use crate::arith::lemma_remainder_product;
use crate::arith::lemma_scale_order;
use crate::arith::lemma_spread_two;
use crate::arith::lemma_swap;
use crate::arith::lemma_zero_factor;
use crate::arith::magnitude;
use crate::fixed::is_raw;
use crate::fixed::lemma_crossing_parameter;
use crate::fixed::lemma_lerp_exact;
use crate::fixed::lerp_raw;
use crate::fixed::lemma_lerp_between;
use crate::fixed::Fixed;
use crate::fixed::Linear;
use crate::mesh::Vertex;
use crate::utils::lerp;
use crate::utils::lerp_spec;
use crate::vector::Mat4;
use crate::vector::Vec2;
use crate::vector::Vec3;
use vstd::prelude::*;

verus! {

/// Three vertices in order. Seen on the screen, front faces wind clockwise.
#[derive(Clone, Copy, Debug, PartialEq, Eq, Structural)]
pub struct Triangle {
    pub v0: Vertex,
    pub v1: Vertex,
    pub v2: Vertex,
}

/// The six orders three vertices can be put in. `A`, `B` and `C` stand for
/// the first, second and third vertex of the triangle being reordered.
/// `ABC`, `BCA` and `CAB` are rotations and keep the winding; the other
/// three are swaps and reverse it.
#[derive(Clone, Copy, Debug, PartialEq, Eq, Structural)]
pub enum VerticesOrder {
    ABC,
    ACB,
    BAC,
    BCA,
    CAB,
    CBA,
}

/// What is left of a triangle after culling and clipping.
#[derive(Clone, Copy, Debug)]
pub enum ClipResult {
    /// Nothing is visible.
    Empty,
    One(Triangle),
    Two((Triangle, Triangle)),
}

/// How the vertices of a triangle lie about the near plane. A vertex is
/// behind the plane when its clip-space `z` is zero or less.
#[derive(Clone, Copy, Debug, PartialEq, Eq, Structural)]
pub enum ClipEvaluation {
    AllPositive,
    /// The index of the one vertex behind the plane.
    OneNegative(u32),
    /// The indices of the two vertices behind the plane, in rising order.
    TwoNegative(u32, u32),
    AllNegative,
}

/// Whether a vertex lies behind the near plane.
pub open spec fn behind(v: Vertex) -> bool {
    v.position.z.raw <= 0
}

/// The number of vertices behind the near plane.
pub open spec fn behind_count(t: Triangle) -> int {
    (if behind(t.v0) {
        1int
    } else {
        0int
    }) + (if behind(t.v1) {
        1int
    } else {
        0int
    }) + (if behind(t.v2) {
        1int
    } else {
        0int
    })
}

/// The z component of the face normal: the cross product of `v1 - v0` and
/// `v2 - v0`, taken over the raw `x` and `y` of the positions.
pub open spec fn normal_z(t: Triangle) -> int {
    (t.v1.position.x.raw - t.v0.position.x.raw) * (t.v2.position.y.raw - t.v0.position.y.raw) - (
    t.v1.position.y.raw - t.v0.position.y.raw) * (t.v2.position.x.raw - t.v0.position.x.raw)
}

/// A triangle faces away when its normal has no component towards the
/// viewer, who looks along `(0, 0, -1)`.
pub open spec fn faces_away(t: Triangle) -> bool {
    normal_z(t) <= 0
}

/// Whether all three vertices lie strictly outside one plane of the view
/// frustum, or all three have negative `z`.
pub open spec fn outside_frustum(t: Triangle) -> bool {
    let p0 = t.v0.position;
    let p1 = t.v1.position;
    let p2 = t.v2.position;
    ||| p0.x.raw > p0.w.raw && p1.x.raw > p1.w.raw && p2.x.raw > p2.w.raw
    ||| p0.x.raw < -p0.w.raw && p1.x.raw < -p1.w.raw && p2.x.raw < -p2.w.raw
    ||| p0.y.raw > p0.w.raw && p1.y.raw > p1.w.raw && p2.y.raw > p2.w.raw
    ||| p0.y.raw < -p0.w.raw && p1.y.raw < -p1.w.raw && p2.y.raw < -p2.w.raw
    ||| p0.z.raw > p0.w.raw && p1.z.raw > p1.w.raw && p2.z.raw > p2.w.raw
    ||| p0.z.raw < -p0.w.raw && p1.z.raw < -p1.w.raw && p2.z.raw < -p2.w.raw
    ||| p0.z.raw < 0 && p1.z.raw < 0 && p2.z.raw < 0
}

/// The point where the edge from `from` to `to` meets the near plane:
/// `from` moved towards `to` by `-z_from / (z_to - z_from)`.
pub open spec fn plane_crossing(from: Vertex, to: Vertex) -> Vertex {
    lerp_spec(
        from,
        to,
        from.position.z.neg_spec().div_spec(to.position.z.sub_spec(from.position.z)),
    )
}

impl Triangle {
    /// The triangle with its vertices in the given order.
    pub open spec fn reorder_spec(self, order: VerticesOrder) -> Triangle {
        match order {
            VerticesOrder::ABC => self,
            VerticesOrder::ACB => Triangle { v0: self.v0, v1: self.v2, v2: self.v1 },
            VerticesOrder::BAC => Triangle { v0: self.v1, v1: self.v0, v2: self.v2 },
            VerticesOrder::BCA => Triangle { v0: self.v1, v1: self.v2, v2: self.v0 },
            VerticesOrder::CAB => Triangle { v0: self.v2, v1: self.v0, v2: self.v1 },
            VerticesOrder::CBA => Triangle { v0: self.v2, v1: self.v1, v2: self.v0 },
        }
    }

    /// The triangle with the matrix applied to each position.
    pub open spec fn transform_spec(self, matrix: Mat4) -> Triangle {
        Triangle {
            v0: Vertex { position: matrix.mul_vec4_spec(self.v0.position), ..self.v0 },
            v1: Vertex { position: matrix.mul_vec4_spec(self.v1.position), ..self.v1 },
            v2: Vertex { position: matrix.mul_vec4_spec(self.v2.position), ..self.v2 },
        }
    }

    fn new(v0: Vertex, v1: Vertex, v2: Vertex) -> (r: Triangle)
        ensures
            r == (Triangle { v0, v1, v2 }),
    {
        Triangle { v0, v1, v2 }
    }

    pub fn from_vertices(vertices: [&Vertex; 3]) -> (r: Triangle)
        ensures
            r.v0 == *vertices[0],
            r.v1 == *vertices[1],
            r.v2 == *vertices[2],
    {
        Triangle { v0: *vertices[0], v1: *vertices[1], v2: *vertices[2] }
    }

    /// Applies `matrix` to the three positions; colours and texture
    /// coordinates stay.
    pub fn transform(&mut self, matrix: &Mat4)
        ensures
            *final(self) == old(self).transform_spec(*matrix),
    {
        self.v0.position = matrix.mul_vec4(self.v0.position);
        self.v1.position = matrix.mul_vec4(self.v1.position);
        self.v2.position = matrix.mul_vec4(self.v2.position);
    }

    pub fn reorder(&self, order: VerticesOrder) -> (r: Triangle)
        ensures
            r == self.reorder_spec(order),
    {
        match order {
            VerticesOrder::ABC => *self,
            VerticesOrder::ACB => Triangle::new(self.v0, self.v2, self.v1),
            VerticesOrder::BAC => Triangle::new(self.v1, self.v0, self.v2),
            VerticesOrder::BCA => Triangle::new(self.v1, self.v2, self.v0),
            VerticesOrder::CAB => Triangle::new(self.v2, self.v0, self.v1),
            VerticesOrder::CBA => Triangle::new(self.v2, self.v1, self.v0),
        }
    }
}

/// How the vertices of `t` lie about the near plane.
pub open spec fn evaluate_spec(t: Triangle) -> ClipEvaluation {
    let b0 = behind(t.v0);
    let b1 = behind(t.v1);
    let b2 = behind(t.v2);
    if b0 && b1 && b2 {
        ClipEvaluation::AllNegative
    } else if !b0 && !b1 && !b2 {
        ClipEvaluation::AllPositive
    } else if b0 && !b1 && !b2 {
        ClipEvaluation::OneNegative(0)
    } else if !b0 && b1 && !b2 {
        ClipEvaluation::OneNegative(1)
    } else if !b0 && !b1 && b2 {
        ClipEvaluation::OneNegative(2)
    } else if !b0 {
        ClipEvaluation::TwoNegative(1, 2)
    } else if !b1 {
        ClipEvaluation::TwoNegative(0, 2)
    } else {
        ClipEvaluation::TwoNegative(0, 1)
    }
}

/// The two triangles left of a triangle whose first vertex alone is behind
/// the near plane. With `a` and `b` the crossings of the edges from `v0` to
/// `v1` and to `v2`, they are `(a, v1, v2)` and `(a, v2, b)`: together the
/// four-sided region in front of the plane, both wound as the input.
pub open spec fn clip_one_spec(t: Triangle) -> (Triangle, Triangle) {
    let a = plane_crossing(t.v0, t.v1);
    let b = plane_crossing(t.v0, t.v2);
    (Triangle { v0: a, v1: t.v1, v2: t.v2 }, Triangle { v0: a, v1: t.v2, v2: b })
}

/// The triangle left of a triangle whose first vertex alone is in front of
/// the near plane: `v0` and the crossings of its two edges, wound as the
/// input.
pub open spec fn clip_two_spec(t: Triangle) -> Triangle {
    Triangle { v0: t.v0, v1: plane_crossing(t.v0, t.v1), v2: plane_crossing(t.v0, t.v2) }
}

/// The rotation that brings the distinguished vertex of a clip evaluation to
/// the front: the one vertex behind the plane, or the one vertex in front.
pub open spec fn canonical_order(e: ClipEvaluation) -> VerticesOrder {
    match e {
        ClipEvaluation::OneNegative(i) => if i == 0 {
            VerticesOrder::ABC
        } else if i == 1 {
            VerticesOrder::BCA
        } else {
            VerticesOrder::CAB
        },
        ClipEvaluation::TwoNegative(i, j) => if i == 1 {
            VerticesOrder::ABC
        } else if j == 2 {
            VerticesOrder::BCA
        } else {
            VerticesOrder::CAB
        },
        _ => VerticesOrder::ABC,
    }
}

/// What culling and clipping leave of a triangle.
pub open spec fn clip_cull_spec(t: Triangle) -> ClipResult {
    if faces_away(t) || outside_frustum(t) {
        ClipResult::Empty
    } else {
        let e = evaluate_spec(t);
        match e {
            ClipEvaluation::AllPositive => ClipResult::One(t),
            ClipEvaluation::AllNegative => ClipResult::Empty,
            ClipEvaluation::OneNegative(_) => ClipResult::Two(
                clip_one_spec(t.reorder_spec(canonical_order(e))),
            ),
            ClipEvaluation::TwoNegative(_, _) => ClipResult::One(
                clip_two_spec(t.reorder_spec(canonical_order(e))),
            ),
        }
    }
}

/// Rejects a triangle that lies wholly outside one plane of the view
/// frustum, or wholly behind the camera. A triangle that is only partly
/// outside is kept.
pub fn cull_triangle_view_frustum(triangle: &Triangle) -> (r: bool)
    ensures
        r == outside_frustum(*triangle),
{
    let x0: i64 = triangle.v0.position.x.raw as i64;
    let y0: i64 = triangle.v0.position.y.raw as i64;
    let z0: i64 = triangle.v0.position.z.raw as i64;
    let w0: i64 = triangle.v0.position.w.raw as i64;
    let x1: i64 = triangle.v1.position.x.raw as i64;
    let y1: i64 = triangle.v1.position.y.raw as i64;
    let z1: i64 = triangle.v1.position.z.raw as i64;
    let w1: i64 = triangle.v1.position.w.raw as i64;
    let x2: i64 = triangle.v2.position.x.raw as i64;
    let y2: i64 = triangle.v2.position.y.raw as i64;
    let z2: i64 = triangle.v2.position.z.raw as i64;
    let w2: i64 = triangle.v2.position.w.raw as i64;
    // X-Axis
    if x0 > w0 && x1 > w1 && x2 > w2 {
        return true;
    }
    if x0 < -w0 && x1 < -w1 && x2 < -w2 {
        return true;
    }
    // Y-Axis
    if y0 > w0 && y1 > w1 && y2 > w2 {
        return true;
    }
    if y0 < -w0 && y1 < -w1 && y2 < -w2 {
        return true;
    }
    // Z-Axis
    if z0 > w0 && z1 > w1 && z2 > w2 {
        return true;
    }
    if z0 < -w0 && z1 < -w1 && z2 < -w2 {
        return true;
    }
    if z0 < 0 && z1 < 0 && z2 < 0 {
        return true;
    }
    false
}

/// Rejects a triangle that faces away from the viewer. The test takes the
/// viewer to look along `(0, 0, -1)` whatever `view_dir` is, and it is made
/// on clip-space positions before the perspective divide: an approximation
/// of the true facing, made once per triangle.
pub fn cull_triangle_backface(triangle: &Triangle, view_dir: Vec3) -> (r: bool)
    ensures
        r == faces_away(*triangle),
{
    let ax: i128 = triangle.v1.position.x.raw as i128 - triangle.v0.position.x.raw as i128;
    let ay: i128 = triangle.v1.position.y.raw as i128 - triangle.v0.position.y.raw as i128;
    let bx: i128 = triangle.v2.position.x.raw as i128 - triangle.v0.position.x.raw as i128;
    let by: i128 = triangle.v2.position.y.raw as i128 - triangle.v0.position.y.raw as i128;
    proof {
        crate::fixed::lemma_product_bound(ax as int, by as int);
        crate::fixed::lemma_product_bound(ay as int, bx as int);
    }
    let normal: i128 = ax * by - ay * bx;
    normal <= 0
}

/// Classifies a triangle by which of its vertices lie behind the near plane.
pub fn evaluate_clip_vertices(triangle: &Triangle) -> (r: ClipEvaluation)
    ensures
        r == evaluate_spec(*triangle),
{
    let mut negative_count: u32 = 3;
    let mut negative_indices: [bool; 3] = [true; 3];
    if triangle.v0.position.z.raw > 0 {
        negative_indices[0] = false;
        negative_count -= 1;
    }
    if triangle.v1.position.z.raw > 0 {
        negative_indices[1] = false;
        negative_count -= 1;
    }
    if triangle.v2.position.z.raw > 0 {
        negative_indices[2] = false;
        negative_count -= 1;
    }
    if negative_count == 3 {
        return ClipEvaluation::AllNegative;
    }
    if negative_count == 0 {
        return ClipEvaluation::AllPositive;
    }
    if negative_count == 1 {
        if negative_indices[0] {
            return ClipEvaluation::OneNegative(0);
        }
        if negative_indices[1] {
            return ClipEvaluation::OneNegative(1);
        }
        return ClipEvaluation::OneNegative(2);
    }
    if !negative_indices[0] {
        return ClipEvaluation::TwoNegative(1, 2);
    }
    if !negative_indices[1] {
        return ClipEvaluation::TwoNegative(0, 2);
    }
    ClipEvaluation::TwoNegative(0, 1)
}

/// The crossing of the edge from `from` to `to` with the near plane.
fn clip_edge(from: Vertex, to: Vertex) -> (r: Vertex)
    ensures
        r == plane_crossing(from, to),
{
    let alpha: Fixed = from.position.z.neg().div(to.position.z.sub(from.position.z));
    lerp(from, to, alpha)
}

/// Clips a triangle whose first vertex alone lies behind the near plane.
pub fn clip_triangle_one_negative(triangle: &Triangle) -> (r: (Triangle, Triangle))
    ensures
        r == clip_one_spec(*triangle),
{
    let v0_a: Vertex = clip_edge(triangle.v0, triangle.v1);
    let v0_b: Vertex = clip_edge(triangle.v0, triangle.v2);
    let mut result_a: Triangle = *triangle;
    let mut result_b: Triangle = *triangle;
    result_a.v0 = v0_a;
    result_b.v0 = v0_a;
    result_b.v1 = triangle.v2;
    result_b.v2 = v0_b;
    (result_a, result_b)
}

/// Clips a triangle whose first vertex alone lies in front of the near plane.
pub fn clip_triangle_two_negatives(triangle: &Triangle) -> (r: Triangle)
    ensures
        r == clip_two_spec(*triangle),
{
    let v1: Vertex = clip_edge(triangle.v0, triangle.v1);
    let v2: Vertex = clip_edge(triangle.v0, triangle.v2);
    Triangle { v0: triangle.v0, v1, v2 }
}

/// Culls a clip-space triangle and clips it against the near plane.
///
/// A triangle that faces away or lies outside the view frustum leaves
/// nothing, and so does one with all three vertices behind the near plane.
/// With no vertex behind the plane the triangle comes back unchanged; with
/// one behind, two triangles come back; with two behind, one.
pub fn clip_cull_triangle(triangle: &Triangle, view_dir: Vec3) -> (r: ClipResult)
    ensures
        r == clip_cull_spec(*triangle),
        faces_away(*triangle) || outside_frustum(*triangle) ==> r is Empty,
        !faces_away(*triangle) && !outside_frustum(*triangle) ==> {
            &&& behind_count(*triangle) == 0 ==> r == ClipResult::One(*triangle)
            &&& behind_count(*triangle) == 1 ==> r is Two
            &&& behind_count(*triangle) == 2 ==> r is One
            &&& behind_count(*triangle) == 3 ==> r is Empty
        },
{
    // Backface culling
    if cull_triangle_backface(triangle, view_dir) {
        return ClipResult::Empty;
    }
    // Frustum culling
    if cull_triangle_view_frustum(triangle) {
        return ClipResult::Empty;
    }
    let evaluated: ClipEvaluation = evaluate_clip_vertices(triangle);
    match evaluated {
        ClipEvaluation::OneNegative(first) => {
            if first == 0 {
                ClipResult::Two(clip_triangle_one_negative(triangle))
            } else if first == 1 {
                ClipResult::Two(clip_triangle_one_negative(&triangle.reorder(VerticesOrder::BCA)))
            } else {
                ClipResult::Two(clip_triangle_one_negative(&triangle.reorder(VerticesOrder::CAB)))
            }
        },
        ClipEvaluation::TwoNegative(first, second) => {
            if first == 1 {
                ClipResult::One(clip_triangle_two_negatives(triangle))
            } else if second == 2 {
                ClipResult::One(clip_triangle_two_negatives(&triangle.reorder(VerticesOrder::BCA)))
            } else {
                ClipResult::One(clip_triangle_two_negatives(&triangle.reorder(VerticesOrder::CAB)))
            }
        },
        ClipEvaluation::AllPositive => ClipResult::One(*triangle),
        ClipEvaluation::AllNegative => ClipResult::Empty,
    }
}

/// An axis-aligned rectangle on the screen.
#[derive(Clone, Copy, Debug, PartialEq, Eq, Structural)]
pub struct BoundingBox2D {
    pub min: Vec2,
    pub max: Vec2,
}

/// The smaller of two raw values.
pub open spec fn min_raw(a: int, b: int) -> int {
    if a <= b {
        a
    } else {
        b
    }
}

/// The larger of two raw values.
pub open spec fn max_raw(a: int, b: int) -> int {
    if a >= b {
        a
    } else {
        b
    }
}

impl BoundingBox2D {
    /// The smallest rectangle that holds three points.
    pub open spec fn bounds_spec(p0: Vec2, p1: Vec2, p2: Vec2) -> BoundingBox2D {
        BoundingBox2D {
            min: Vec2 {
                x: Fixed {
                    raw: min_raw(
                        p0.x.raw as int,
                        min_raw(p1.x.raw as int, p2.x.raw as int),
                    ) as i32,
                },
                y: Fixed {
                    raw: min_raw(
                        p0.y.raw as int,
                        min_raw(p1.y.raw as int, p2.y.raw as int),
                    ) as i32,
                },
            },
            max: Vec2 {
                x: Fixed {
                    raw: max_raw(
                        p0.x.raw as int,
                        max_raw(p1.x.raw as int, p2.x.raw as int),
                    ) as i32,
                },
                y: Fixed {
                    raw: max_raw(
                        p0.y.raw as int,
                        max_raw(p1.y.raw as int, p2.y.raw as int),
                    ) as i32,
                },
            },
        }
    }

    /// The rectangle with its lower corner raised to `min` and its upper
    /// corner lowered to `max`, each coordinate on its own.
    pub open spec fn clamp_spec(self, min: Vec2, max: Vec2) -> BoundingBox2D {
        BoundingBox2D {
            min: Vec2 {
                x: Fixed { raw: max_raw(self.min.x.raw as int, min.x.raw as int) as i32 },
                y: Fixed { raw: max_raw(self.min.y.raw as int, min.y.raw as int) as i32 },
            },
            max: Vec2 {
                x: Fixed { raw: min_raw(self.max.x.raw as int, max.x.raw as int) as i32 },
                y: Fixed { raw: min_raw(self.max.y.raw as int, max.y.raw as int) as i32 },
            },
        }
    }

    pub fn new(min: Vec2, max: Vec2) -> (r: BoundingBox2D)
        ensures
            r.min == min,
            r.max == max,
    {
        BoundingBox2D { min, max }
    }

    pub fn get_bounds_from_triangle(positions: &[Vec2; 3]) -> (r: BoundingBox2D)
        ensures
            r == BoundingBox2D::bounds_spec(positions[0], positions[1], positions[2]),
    {
        let min = Vec2::new(
            positions[0].x.min(positions[1].x.min(positions[2].x)),
            positions[0].y.min(positions[1].y.min(positions[2].y)),
        );
        let max = Vec2::new(
            positions[0].x.max(positions[1].x.max(positions[2].x)),
            positions[0].y.max(positions[1].y.max(positions[2].y)),
        );
        BoundingBox2D { min, max }
    }

    pub fn clamp(&mut self, min: Vec2, max: Vec2)
        ensures
            *final(self) == old(self).clamp_spec(min, max),
    {
        if self.min.x.raw < min.x.raw {
            self.min.x = min.x;
        }
        if self.min.y.raw < min.y.raw {
            self.min.y = min.y;
        }
        if self.max.x.raw > max.x.raw {
            self.max.x = max.x;
        }
        if self.max.y.raw > max.y.raw {
            self.max.y = max.y;
        }
    }
}

/// Whether `c` lies between `a` and `b`, whichever of the two is larger.
pub open spec fn between(a: Fixed, c: Fixed, b: Fixed) -> bool {
    (a.raw <= c.raw <= b.raw) || (b.raw <= c.raw <= a.raw)
}

/// Whether every attribute of `c` lies between that attribute of `a` and
/// of `b`.
pub open spec fn vertex_between(a: Vertex, c: Vertex, b: Vertex) -> bool {
    &&& between(a.position.x, c.position.x, b.position.x)
    &&& between(a.position.y, c.position.y, b.position.y)
    &&& between(a.position.z, c.position.z, b.position.z)
    &&& between(a.position.w, c.position.w, b.position.w)
    &&& between(a.color.x, c.color.x, b.color.x)
    &&& between(a.color.y, c.color.y, b.color.y)
    &&& between(a.color.z, c.color.z, b.color.z)
    &&& between(a.uv.x, c.uv.x, b.uv.x)
    &&& between(a.uv.y, c.uv.y, b.uv.y)
}

/// One attribute of a crossing lies between the ends of its edge.
proof fn lemma_attribute_between(a: Fixed, b: Fixed, t: Fixed)
    requires
        0 <= t.raw <= 65536,
    ensures
        between(a, lerp_spec(a, b, t), b),
{
    lemma_lerp_between(a.raw as int, b.raw as int, t.raw as int);
}

/// Clipping invents nothing. Where an edge has one end at or behind the
/// near plane and the other in front, the crossing the clip computes lies
/// between the two ends in every attribute: position, colour and texture
/// coordinate. So every vertex that comes out of the clip lies within the
/// box that holds the triangle that went in.
pub proof fn lemma_crossing_between(from: Vertex, to: Vertex)
    requires
        behind(from) != behind(to),
    ensures
        vertex_between(from, plane_crossing(from, to), to),
        0 <= from.position.z.neg_spec().div_spec(to.position.z.sub_spec(from.position.z)).raw
            <= 65536,
{
    let t = from.position.z.neg_spec().div_spec(to.position.z.sub_spec(from.position.z));
    lemma_crossing_parameter(from.position.z.raw as int, to.position.z.raw as int);
    lemma_attribute_between(from.position.x, to.position.x, t);
    lemma_attribute_between(from.position.y, to.position.y, t);
    lemma_attribute_between(from.position.z, to.position.z, t);
    lemma_attribute_between(from.position.w, to.position.w, t);
    lemma_attribute_between(from.color.x, to.color.x, t);
    lemma_attribute_between(from.color.y, to.color.y, t);
    lemma_attribute_between(from.color.z, to.color.z, t);
    lemma_attribute_between(from.uv.x, to.uv.x, t);
    lemma_attribute_between(from.uv.y, to.uv.y, t);
}

/// Whether `p` lies on the edge from `a` to `b`, the fraction `n / d` of
/// the way along it, in the `x` and `y` of the positions.
pub open spec fn divides_edge(a: Vertex, b: Vertex, p: Vertex, n: int, d: int) -> bool {
    &&& 0 <= n <= d
    &&& 0 < d
    &&& d * (p.position.x.raw - a.position.x.raw) == n * (b.position.x.raw - a.position.x.raw)
    &&& d * (p.position.y.raw - a.position.y.raw) == n * (b.position.y.raw - a.position.y.raw)
}

/// The cross product of two vectors that were both shifted by `p`.
proof fn lemma_cross_shift(ux: int, uy: int, vx: int, vy: int, px: int, py: int)
    ensures
        (ux - px) * (vy - py) - (uy - py) * (vx - px) == (ux * vy - uy * vx) - (ux * py - uy * px)
            - (px * vy - py * vx),
{
    lemma_product_of_differences(ux, px, vy, py);
    lemma_product_of_differences(uy, py, vx, px);
    lemma_swap(px, py);
}

/// The cross product with a vector `p` that is `n / d` of `u`.
proof fn lemma_cross_fraction(d: int, n: int, px: int, py: int, ux: int, uy: int, vx: int, vy: int)
    requires
        d * px == n * ux,
        d * py == n * uy,
    ensures
        d * (px * vy - py * vx) == n * (ux * vy - uy * vx),
        d * (vx * py - vy * px) == n * (vx * uy - vy * ux),
{
    lemma_spread_two(d, px * vy, py * vx);
    lemma_spread_two(n, ux * vy, uy * vx);
    lemma_regroup(d, px, vy);
    lemma_regroup(d, py, vx);
    lemma_regroup(n, ux, vy);
    lemma_regroup(n, uy, vx);
    lemma_spread_two(d, vx * py, vy * px);
    lemma_spread_two(n, vx * uy, vy * ux);
    lemma_swap(vx, py);
    lemma_swap(vy, px);
    lemma_swap(vx, uy);
    lemma_swap(vy, ux);
}

/// A vector has no cross product with a fraction of itself.
proof fn lemma_cross_parallel(d: int, n: int, px: int, py: int, ux: int, uy: int)
    requires
        0 < d,
        d * px == n * ux,
        d * py == n * uy,
    ensures
        ux * py - uy * px == 0,
{
    lemma_cross_fraction(d, n, px, py, ux, uy, ux, uy);
    lemma_swap(ux, uy);
    lemma_zero_factor(n);
    lemma_zero_factor(d);
    lemma_swap(d, ux * py - uy * px);
    lemma_cancel_equal(ux * py - uy * px, 0, d);
}

/// Bounds of a value `m` with `d * m == k * a`, for `0 <= k <= d`, `0 < d`
/// and `a >= 0`.
proof fn lemma_fraction_of_area(d: int, k: int, m: int, a: int)
    requires
        0 < d,
        0 <= k <= d,
        0 <= a,
        d * m == k * a,
    ensures
        0 <= m <= a,
{
    lemma_scale_order(0, k, a);
    lemma_scale_order(k, d, a);
    lemma_zero_factor(a);
    lemma_zero_factor(d);
    lemma_swap(d, m);
    lemma_cancel_order(0, m, d);
    lemma_cancel_order(m, a, d);
}

/// Clipping with one vertex behind the plane does not add area. Take a
/// triangle that winds clockwise on the screen, and suppose the two
/// crossings the clip computes lie exactly on the edges they interpolate,
/// `n1 / d1` and `n2 / d2` of the way from the first vertex. Then each of the
/// two output triangles winds as the input, and their areas together are at
/// most the area of the input. (Areas are taken in the `x`, `y` plane of
/// clip space; [`normal_z`] is twice the signed area.)
pub proof fn lemma_clip_one_area(t: Triangle, n1: int, d1: int, n2: int, d2: int)
    requires
        normal_z(t) >= 0,
        divides_edge(t.v0, t.v1, plane_crossing(t.v0, t.v1), n1, d1),
        divides_edge(t.v0, t.v2, plane_crossing(t.v0, t.v2), n2, d2),
    ensures
        0 <= normal_z(clip_one_spec(t).0),
        0 <= normal_z(clip_one_spec(t).1),
        normal_z(clip_one_spec(t).0) + normal_z(clip_one_spec(t).1) <= normal_z(t),
{
    let a = plane_crossing(t.v0, t.v1);
    let b = plane_crossing(t.v0, t.v2);
    let x0 = t.v0.position.x.raw as int;
    let y0 = t.v0.position.y.raw as int;
    let ux = t.v1.position.x.raw - x0;
    let uy = t.v1.position.y.raw - y0;
    let vx = t.v2.position.x.raw - x0;
    let vy = t.v2.position.y.raw - y0;
    let px = a.position.x.raw - x0;
    let py = a.position.y.raw - y0;
    let qx = b.position.x.raw - x0;
    let qy = b.position.y.raw - y0;
    let area = ux * vy - uy * vx;
    let first = normal_z(clip_one_spec(t).0);
    let second = normal_z(clip_one_spec(t).1);
    let p_cross_v = px * vy - py * vx;
    let p_cross_q = px * qy - py * qx;
    let u_cross_q = ux * qy - uy * qx;
    assert(area == normal_z(t));
    // The first output is (a, v1, v2), the second (a, v2, b).
    assert(first == (ux - px) * (vy - py) - (uy - py) * (vx - px));
    assert(second == (vx - px) * (qy - py) - (vy - py) * (qx - px));
    lemma_cross_shift(ux, uy, vx, vy, px, py);
    lemma_cross_shift(vx, vy, qx, qy, px, py);
    // p is n1/d1 of u, q is n2/d2 of v.
    lemma_cross_parallel(d1, n1, px, py, ux, uy);
    lemma_cross_parallel(d2, n2, qx, qy, vx, vy);
    lemma_swap(vx, py);
    lemma_swap(vy, px);
    assert(first == area - p_cross_v);
    assert(second == p_cross_v - p_cross_q);
    lemma_cross_fraction(d1, n1, px, py, ux, uy, vx, vy);
    lemma_cross_fraction(d2, n2, qx, qy, vx, vy, ux, uy);
    lemma_cross_fraction(d1, n1, px, py, ux, uy, qx, qy);
    assert(d1 * p_cross_v == n1 * area);
    assert(d2 * u_cross_q == n2 * area);
    assert(d1 * p_cross_q == n1 * u_cross_q);
    lemma_fraction_of_area(d1, n1, p_cross_v, area);
    lemma_fraction_of_area(d2, n2, u_cross_q, area);
    lemma_fraction_of_area(d1, n1, p_cross_q, u_cross_q);
    // p x q <= p x v: both are n1/d1 of something, and u x q <= u x v.
    lemma_scale_order(u_cross_q, area, n1);
    lemma_swap(d1, p_cross_q);
    lemma_swap(d1, p_cross_v);
    lemma_cancel_order(p_cross_q, p_cross_v, d1);
}

/// Clipping with two vertices behind the plane does not add area. Take a
/// triangle that winds clockwise on the screen, and suppose the two
/// crossings the clip computes lie exactly on the edges they interpolate.
/// Then the output triangle winds as the input and its area is at most the
/// area of the input.
pub proof fn lemma_clip_two_area(t: Triangle, n1: int, d1: int, n2: int, d2: int)
    requires
        normal_z(t) >= 0,
        divides_edge(t.v0, t.v1, plane_crossing(t.v0, t.v1), n1, d1),
        divides_edge(t.v0, t.v2, plane_crossing(t.v0, t.v2), n2, d2),
    ensures
        0 <= normal_z(clip_two_spec(t)) <= normal_z(t),
{
    let a = plane_crossing(t.v0, t.v1);
    let b = plane_crossing(t.v0, t.v2);
    let x0 = t.v0.position.x.raw as int;
    let y0 = t.v0.position.y.raw as int;
    let ux = t.v1.position.x.raw - x0;
    let uy = t.v1.position.y.raw - y0;
    let vx = t.v2.position.x.raw - x0;
    let vy = t.v2.position.y.raw - y0;
    let px = a.position.x.raw - x0;
    let py = a.position.y.raw - y0;
    let qx = b.position.x.raw - x0;
    let qy = b.position.y.raw - y0;
    let area = ux * vy - uy * vx;
    assert(area == normal_z(t));
    assert(normal_z(clip_two_spec(t)) == px * qy - py * qx);
    lemma_cross_fraction(d1, n1, px, py, ux, uy, qx, qy);
    lemma_cross_fraction(d2, n2, qx, qy, vx, vy, ux, uy);
    assert(d2 * (ux * qy - uy * qx) == n2 * area);
    lemma_fraction_of_area(d2, n2, ux * qy - uy * qx, area);
    lemma_fraction_of_area(d1, n1, px * qy - py * qx, ux * qy - uy * qx);
}

/// The extent of the edge from `a` to `b`: how far apart its ends are in
/// `x`, plus how far apart in `y`.
pub open spec fn extent(a: Vertex, b: Vertex) -> int {
    magnitude(b.position.x.raw - a.position.x.raw) + magnitude(
        b.position.y.raw - a.position.y.raw,
    )
}

/// The sum of the extents of the three edges.
pub open spec fn perimeter(t: Triangle) -> int {
    extent(t.v0, t.v1) + extent(t.v1, t.v2) + extent(t.v2, t.v0)
}

/// Whether two raw coordinates differ by an amount that is representable
/// whichever way the difference is taken.
pub open spec fn span_representable(a: int, b: int) -> bool {
    -0x7fff_ffff <= b - a <= 0x7fff_ffff
}

/// Whether the ends of every edge differ by representable amounts in `x`
/// and `y`, so that the differences the clip takes do not saturate.
pub open spec fn spans_representable(t: Triangle) -> bool {
    &&& span_representable(t.v0.position.x.raw as int, t.v1.position.x.raw as int)
    &&& span_representable(t.v0.position.y.raw as int, t.v1.position.y.raw as int)
    &&& span_representable(t.v1.position.x.raw as int, t.v2.position.x.raw as int)
    &&& span_representable(t.v1.position.y.raw as int, t.v2.position.y.raw as int)
    &&& span_representable(t.v2.position.x.raw as int, t.v0.position.x.raw as int)
    &&& span_representable(t.v2.position.y.raw as int, t.v0.position.y.raw as int)
}

/// Twice the area that a clip result covers in the `x`, `y` plane.
pub open spec fn clipped_area(r: ClipResult) -> int {
    match r {
        ClipResult::Empty => 0,
        ClipResult::One(one) => normal_z(one),
        ClipResult::Two((first, second)) => normal_z(first) + normal_z(second),
    }
}

/// The cross product of a rounded fraction of `u` with any vector `w`.
/// Here `p` is `alpha / 65536` of `u`, each coordinate rounded down.
proof fn lemma_cross_rounded(
    alpha: int,
    ux: int,
    uy: int,
    px: int,
    py: int,
    wx: int,
    wy: int,
)
    requires
        65536 * px <= ux * alpha < 65536 * px + 65536,
        65536 * py <= uy * alpha < 65536 * py + 65536,
    ensures
        alpha * (ux * wy - uy * wx) - 65536 * (magnitude(wx) + magnitude(wy)) <= 65536 * (px * wy
            - py * wx),
        65536 * (px * wy - py * wx) <= alpha * (ux * wy - uy * wx) + 65536 * (magnitude(wx)
            + magnitude(wy)),
{
    let ex = ux * alpha - 65536 * px;
    let ey = uy * alpha - 65536 * py;
    // 65536 * (p x w) == alpha * (u x w) - (ex * wy - ey * wx)
    assert(65536 * (px * wy - py * wx) == alpha * (ux * wy - uy * wx) - (ex * wy - ey * wx)) by {
        lemma_spread_two(65536, px * wy, py * wx);
        lemma_regroup(65536, px, wy);
        lemma_regroup(65536, py, wx);
        lemma_spread_two(wy, ux * alpha, ex);
        lemma_spread_two(wx, uy * alpha, ey);
        lemma_spread_two(alpha, ux * wy, uy * wx);
        lemma_regroup(ux, alpha, wy);
        lemma_regroup(uy, alpha, wx);
        lemma_regroup(alpha, ux, wy);
        lemma_regroup(alpha, uy, wx);
    }
    lemma_remainder_product(ex, 65536, wy);
    lemma_remainder_product(ey, 65536, wx);
}

/// `alpha` times a value that is not negative is at most 65536 times it.
proof fn lemma_fraction_at_most(alpha: int, a: int)
    requires
        0 <= alpha <= 65536,
        0 <= a,
    ensures
        0 <= alpha * a <= 65536 * a,
{
    lemma_scale_order(0, alpha, a);
    lemma_scale_order(alpha, 65536, a);
    lemma_zero_factor(a);
}

/// What rounding can add to the cross products of two crossings. Here `p`
/// is a rounded fraction `alpha` of `u`, and `q` a rounded fraction `beta`
/// of `v`, with `u x v` not negative.
proof fn lemma_crossing_products(
    alpha: int,
    beta: int,
    ux: int,
    uy: int,
    vx: int,
    vy: int,
    px: int,
    py: int,
    qx: int,
    qy: int,
)
    requires
        0 <= alpha <= 65536,
        0 <= beta <= 65536,
        0 <= ux * vy - uy * vx,
        65536 * px <= ux * alpha < 65536 * px + 65536,
        65536 * py <= uy * alpha < 65536 * py + 65536,
        65536 * qx <= vx * beta < 65536 * qx + 65536,
        65536 * qy <= vy * beta < 65536 * qy + 65536,
        magnitude(qx) <= magnitude(vx),
        magnitude(qy) <= magnitude(vy),
    ensures
        px * uy - py * ux <= magnitude(ux) + magnitude(uy),
        -(qx * vy - qy * vx) <= magnitude(vx) + magnitude(vy),
        -(px * qy - py * qx) <= magnitude(ux) + magnitude(uy) + magnitude(vx) + magnitude(vy),
        px * qy - py * qx <= (ux * vy - uy * vx) + magnitude(ux) + magnitude(uy) + magnitude(vx)
            + magnitude(vy),
{
    let area = ux * vy - uy * vx;
    let u_cross_q = ux * qy - uy * qx;
    let p_cross_q = px * qy - py * qx;
    let span_u = magnitude(ux) + magnitude(uy);
    let span_v = magnitude(vx) + magnitude(vy);
    let span_q = magnitude(qx) + magnitude(qy);
    // p against u: u x u is zero
    lemma_cross_rounded(alpha, ux, uy, px, py, ux, uy);
    lemma_swap(ux, uy);
    lemma_zero_factor(alpha);
    // q against v: v x v is zero
    lemma_cross_rounded(beta, vx, vy, qx, qy, vx, vy);
    lemma_swap(vx, vy);
    lemma_zero_factor(beta);
    // q against u: 65536 * (q x u) is about beta * (v x u) = -beta * area
    lemma_cross_rounded(beta, vx, vy, qx, qy, ux, uy);
    lemma_swap(vx, uy);
    lemma_swap(vy, ux);
    lemma_swap(qx, uy);
    lemma_swap(qy, ux);
    lemma_spread_two(beta, 0, area);
    lemma_fraction_at_most(beta, area);
    assert(vx * uy - vy * ux == -area);
    assert(qx * uy - qy * ux == -u_cross_q);
    assert(beta * (-area) == -(beta * area));
    assert(-span_u <= u_cross_q <= area + span_u);
    // p against q
    lemma_cross_rounded(alpha, ux, uy, px, py, qx, qy);
    if u_cross_q >= 0 {
        lemma_fraction_at_most(alpha, u_cross_q);
    } else {
        lemma_fraction_at_most(alpha, -u_cross_q);
        lemma_spread_two(alpha, 0, u_cross_q);
    }
    assert(-(65536 * span_u) <= alpha * u_cross_q <= 65536 * (area + span_u));
}

/// The `x` or `y` of a crossing, taken from the first end of its edge: a
/// rounded fraction of the edge, and no longer than the edge.
proof fn lemma_crossing_offset(a: int, b: int, t: int)
    requires
        is_raw(a),
        is_raw(b),
        span_representable(a, b),
        0 <= t <= 65536,
    ensures
        65536 * (lerp_raw(a, b, t) - a) <= (b - a) * t < 65536 * (lerp_raw(a, b, t) - a) + 65536,
        magnitude(lerp_raw(a, b, t) - a) <= magnitude(b - a),
{
    lemma_lerp_exact(a, b, t);
    lemma_lerp_between(a, b, t);
}

/// Clipping with one vertex behind the plane adds no area but what
/// rounding adds. For a triangle that winds clockwise on the screen, with
/// its first vertex alone at or behind the near plane, the areas of the two
/// output triangles together are at most the area of the input plus twice
/// the extents of the two clipped edges. (Areas are doubled and in squared
/// units of 1/65536, extents in units of 1/65536: for a triangle a whole
/// unit wide the allowance is about a hundred-thousandth of its area.)
pub proof fn lemma_clip_one_area_rounded(t: Triangle)
    requires
        normal_z(t) >= 0,
        behind(t.v0),
        !behind(t.v1),
        !behind(t.v2),
        spans_representable(t),
    ensures
        normal_z(clip_one_spec(t).0) + normal_z(clip_one_spec(t).1) <= normal_z(t) + 2 * (extent(
            t.v0,
            t.v1,
        ) + extent(t.v0, t.v2)),
{
    let a = plane_crossing(t.v0, t.v1);
    let b = plane_crossing(t.v0, t.v2);
    let alpha = t.v0.position.z.neg_spec().div_spec(t.v1.position.z.sub_spec(t.v0.position.z)).raw
        as int;
    let beta = t.v0.position.z.neg_spec().div_spec(t.v2.position.z.sub_spec(t.v0.position.z)).raw
        as int;
    let x0 = t.v0.position.x.raw as int;
    let y0 = t.v0.position.y.raw as int;
    let ux = t.v1.position.x.raw - x0;
    let uy = t.v1.position.y.raw - y0;
    let vx = t.v2.position.x.raw - x0;
    let vy = t.v2.position.y.raw - y0;
    let px = a.position.x.raw - x0;
    let py = a.position.y.raw - y0;
    let qx = b.position.x.raw - x0;
    let qy = b.position.y.raw - y0;
    lemma_crossing_between(t.v0, t.v1);
    lemma_crossing_between(t.v0, t.v2);
    lemma_crossing_offset(x0, t.v1.position.x.raw as int, alpha);
    lemma_crossing_offset(y0, t.v1.position.y.raw as int, alpha);
    lemma_crossing_offset(x0, t.v2.position.x.raw as int, beta);
    lemma_crossing_offset(y0, t.v2.position.y.raw as int, beta);
    lemma_crossing_products(alpha, beta, ux, uy, vx, vy, px, py, qx, qy);
    // first + second == area + p x u - q x v - p x q
    let first = normal_z(clip_one_spec(t).0);
    let second = normal_z(clip_one_spec(t).1);
    assert(first == (ux - px) * (vy - py) - (uy - py) * (vx - px));
    assert(second == (vx - px) * (qy - py) - (vy - py) * (qx - px));
    lemma_cross_shift(ux, uy, vx, vy, px, py);
    lemma_cross_shift(vx, vy, qx, qy, px, py);
    lemma_swap(ux, py);
    lemma_swap(uy, px);
    lemma_swap(vx, py);
    lemma_swap(vy, px);
    lemma_swap(vx, qy);
    lemma_swap(vy, qx);
    assert(first + second == (ux * vy - uy * vx) + (px * uy - py * ux) - (qx * vy - qy * vx) - (px
        * qy - py * qx));
}

/// Clipping with two vertices behind the plane adds no area but what
/// rounding adds. For a triangle that winds clockwise on the screen, with
/// its first vertex alone in front of the near plane, the area of the
/// output triangle is at most the area of the input plus the extents of the
/// two clipped edges.
pub proof fn lemma_clip_two_area_rounded(t: Triangle)
    requires
        normal_z(t) >= 0,
        !behind(t.v0),
        behind(t.v1),
        behind(t.v2),
        spans_representable(t),
    ensures
        normal_z(clip_two_spec(t)) <= normal_z(t) + extent(t.v0, t.v1) + extent(t.v0, t.v2),
{
    let a = plane_crossing(t.v0, t.v1);
    let b = plane_crossing(t.v0, t.v2);
    let alpha = t.v0.position.z.neg_spec().div_spec(t.v1.position.z.sub_spec(t.v0.position.z)).raw
        as int;
    let beta = t.v0.position.z.neg_spec().div_spec(t.v2.position.z.sub_spec(t.v0.position.z)).raw
        as int;
    let x0 = t.v0.position.x.raw as int;
    let y0 = t.v0.position.y.raw as int;
    let ux = t.v1.position.x.raw - x0;
    let uy = t.v1.position.y.raw - y0;
    let vx = t.v2.position.x.raw - x0;
    let vy = t.v2.position.y.raw - y0;
    let px = a.position.x.raw - x0;
    let py = a.position.y.raw - y0;
    let qx = b.position.x.raw - x0;
    let qy = b.position.y.raw - y0;
    lemma_crossing_between(t.v0, t.v1);
    lemma_crossing_between(t.v0, t.v2);
    lemma_crossing_offset(x0, t.v1.position.x.raw as int, alpha);
    lemma_crossing_offset(y0, t.v1.position.y.raw as int, alpha);
    lemma_crossing_offset(x0, t.v2.position.x.raw as int, beta);
    lemma_crossing_offset(y0, t.v2.position.y.raw as int, beta);
    lemma_crossing_products(alpha, beta, ux, uy, vx, vy, px, py, qx, qy);
    assert(normal_z(clip_two_spec(t)) == px * qy - py * qx);
}

/// Turning the vertices of a triangle round keeps its area and its
/// perimeter, and which spans are representable.
proof fn lemma_rotation_keeps_area(t: Triangle)
    ensures
        normal_z(t.reorder_spec(VerticesOrder::BCA)) == normal_z(t),
        normal_z(t.reorder_spec(VerticesOrder::CAB)) == normal_z(t),
        perimeter(t.reorder_spec(VerticesOrder::BCA)) == perimeter(t),
        perimeter(t.reorder_spec(VerticesOrder::CAB)) == perimeter(t),
        spans_representable(t.reorder_spec(VerticesOrder::BCA)) == spans_representable(t),
        spans_representable(t.reorder_spec(VerticesOrder::CAB)) == spans_representable(t),
{
    let x0 = t.v0.position.x.raw as int;
    let y0 = t.v0.position.y.raw as int;
    let x1 = t.v1.position.x.raw as int;
    let y1 = t.v1.position.y.raw as int;
    let x2 = t.v2.position.x.raw as int;
    let y2 = t.v2.position.y.raw as int;
    lemma_product_of_differences(x1, x0, y2, y0);
    lemma_product_of_differences(y1, y0, x2, x0);
    lemma_product_of_differences(x2, x1, y0, y1);
    lemma_product_of_differences(y2, y1, x0, x1);
    lemma_product_of_differences(x0, x2, y1, y2);
    lemma_product_of_differences(y0, y2, x1, x2);
    lemma_swap(x0, y0);
    lemma_swap(x0, y1);
    lemma_swap(x0, y2);
    lemma_swap(x1, y0);
    lemma_swap(x1, y1);
    lemma_swap(x1, y2);
    lemma_swap(x2, y0);
    lemma_swap(x2, y1);
    lemma_swap(x2, y2);
}

/// The two clips, applied to a triangle whose distinguished vertex comes
/// first, add at most twice the perimeter.
proof fn lemma_clip_area_in_order(t: Triangle)
    requires
        spans_representable(t),
        normal_z(t) >= 0,
    ensures
        behind(t.v0) && !behind(t.v1) && !behind(t.v2) ==> normal_z(clip_one_spec(t).0)
            + normal_z(clip_one_spec(t).1) <= normal_z(t) + 2 * perimeter(t),
        !behind(t.v0) && behind(t.v1) && behind(t.v2) ==> normal_z(clip_two_spec(t)) <= normal_z(t)
            + 2 * perimeter(t),
{
    if behind(t.v0) && !behind(t.v1) && !behind(t.v2) {
        lemma_clip_one_area_rounded(t);
    }
    if !behind(t.v0) && behind(t.v1) && behind(t.v2) {
        lemma_clip_two_area_rounded(t);
    }
}

/// Culling and clipping add no area but what rounding adds: whatever
/// [`clip_cull_triangle`] leaves of a triangle covers, in the `x`, `y` plane
/// of clip space, at most the area of the triangle plus twice its perimeter.
/// (Areas are doubled and in squared units of 1/65536, the perimeter in
/// units of 1/65536.) This holds of every triangle whose vertices are close
/// enough for their differences to be representable.
pub proof fn lemma_clip_adds_no_area(t: Triangle)
    requires
        spans_representable(t),
    ensures
        clipped_area(clip_cull_spec(t)) <= magnitude(normal_z(t)) + 2 * perimeter(t),
{
    lemma_rotation_keeps_area(t);
    let result = clip_cull_spec(t);
    if faces_away(t) || outside_frustum(t) {
        assert(result is Empty);
    } else {
        let e = evaluate_spec(t);
        let turned = t.reorder_spec(canonical_order(e));
        assert(normal_z(turned) == normal_z(t));
        assert(perimeter(turned) == perimeter(t));
        assert(spans_representable(turned));
        lemma_clip_area_in_order(turned);
        match e {
            ClipEvaluation::OneNegative(_) => {
                assert(behind(turned.v0) && !behind(turned.v1) && !behind(turned.v2));
                assert(result == ClipResult::Two(clip_one_spec(turned)));
            },
            ClipEvaluation::TwoNegative(_, _) => {
                assert(!behind(turned.v0) && behind(turned.v1) && behind(turned.v2));
                assert(result == ClipResult::One(clip_two_spec(turned)));
            },
            ClipEvaluation::AllPositive => {
                assert(result == ClipResult::One(t));
            },
            ClipEvaluation::AllNegative => {
                assert(result is Empty);
            },
        }
    }
}

} // verus!
