//! Projection to the screen and the scan that shades a triangle's pixels.
//!
//! A clipped triangle is divided by `w`, mapped to the viewport and scanned
//! over its bounding box. Each pixel is sampled at its centre. A pixel whose
//! centre lies strictly inside the triangle yields a fragment: its depth is
//! the perspective correction at the pixel, its colour comes from the
//! shader. The fragment replaces what the buffers hold when its depth is
//! strictly smaller than the stored one.
use crate::arith::lemma_swap;
use crate::fixed::neg_raw;
use crate::fixed::Fixed;
use crate::fixed::Linear;
use crate::frame::lemma_index_pixel;
use crate::frame::lemma_pixel_index;
use crate::frame::pixel_index;
use crate::frame::Frame;
use crate::geometry::clip_cull_spec;
use crate::geometry::clip_cull_triangle;
use crate::geometry::BoundingBox2D;
use crate::geometry::ClipResult;
use crate::geometry::Triangle;
use crate::mesh::indices_below;
use crate::mesh::uvec3_indices;
use crate::mesh::Mesh;
use crate::mesh::Vertex;
use crate::shading::blend;
use crate::shading::blend_spec;
use crate::shading::tex_coords_spec;
use crate::shading::RenderState;
use crate::shading::Shading;
use crate::utils::barycentric_coordinates;
use crate::utils::edge_function_cw;
use crate::utils::edge_spec;
use crate::utils::index_part;
use crate::utils::inside;
use crate::utils::lemma_inside_bounds;
use crate::utils::lemma_weights_partition;
use crate::utils::map_raw;
use crate::utils::map_to_range;
use crate::utils::weights_spec;
use crate::utils::whole_part;
use crate::vector::Mat4;
use crate::vector::Vec2;
use crate::vector::Vec3;
use crate::vector::Vec4;
use glam::UVec3;
use vstd::prelude::*;

verus! {

/// A triangle ready for the scan: the screen positions of its vertices, the
/// reciprocal of each vertex's `w`, and the vertices with every attribute
/// multiplied by that reciprocal.
#[derive(Clone, Copy, Debug, PartialEq, Eq, Structural)]
pub struct ScreenTriangle {
    pub sc0: Vec2,
    pub sc1: Vec2,
    pub sc2: Vec2,
    pub rec0: Fixed,
    pub rec1: Fixed,
    pub rec2: Fixed,
    pub v0: Vertex,
    pub v1: Vertex,
    pub v2: Vertex,
}

/// The reciprocal of a vertex's `w`.
pub open spec fn reciprocal_w(v: Vertex) -> Fixed {
    (Fixed { raw: 65536 }).div_spec(v.position.w)
}

/// The screen position of a point in normalized device coordinates: `x`
/// from `-1..1` to `0..viewport.x`, and `y`, which points up, from `1..-1`
/// to `0..viewport.y`.
pub open spec fn screen_point_spec(ndc: Vec4, viewport: Vec2) -> Vec2 {
    Vec2 {
        x: Fixed { raw: map_raw(ndc.x.raw as int, -65536, 65536, 0, viewport.x.raw as int) as i32 },
        y: Fixed {
            raw: map_raw(neg_raw(ndc.y.raw as int), -65536, 65536, 0, viewport.y.raw as int) as i32,
        },
    }
}

/// The screen position of a clip-space vertex.
pub open spec fn screen_vertex_spec(v: Vertex, viewport: Vec2) -> Vec2 {
    screen_point_spec(v.position.mul_spec(reciprocal_w(v)), viewport)
}

/// A clip-space triangle prepared for the scan.
pub open spec fn project_spec(t: Triangle, viewport: Vec2) -> ScreenTriangle {
    ScreenTriangle {
        sc0: screen_vertex_spec(t.v0, viewport),
        sc1: screen_vertex_spec(t.v1, viewport),
        sc2: screen_vertex_spec(t.v2, viewport),
        rec0: reciprocal_w(t.v0),
        rec1: reciprocal_w(t.v1),
        rec2: reciprocal_w(t.v2),
        v0: t.v0.mul_spec(reciprocal_w(t.v0)),
        v1: t.v1.mul_spec(reciprocal_w(t.v1)),
        v2: t.v2.mul_spec(reciprocal_w(t.v2)),
    }
}

/// The centre of pixel `(x, y)`.
pub open spec fn pixel_center(x: int, y: int) -> Vec2 {
    Vec2 { x: Fixed { raw: (x * 65536 + 32768) as i32 }, y: Fixed { raw: (y * 65536 + 32768) as i32 } }
}

/// The rectangle the scan of a triangle is confined to: the bounding box of
/// its screen positions, cut to the viewport.
pub open spec fn scan_bounds_spec(s: ScreenTriangle, viewport: Vec2) -> BoundingBox2D {
    BoundingBox2D::bounds_spec(s.sc0, s.sc1, s.sc2).clamp_spec(
        Vec2 { x: Fixed { raw: 0 }, y: Fixed { raw: 0 } },
        viewport,
    )
}

/// Whether the scan visits pixel `(x, y)`: columns from the whole part of
/// the lower bound up to, but not including, the whole part of the upper
/// bound, and rows likewise.
pub open spec fn in_scan(bounds: BoundingBox2D, x: int, y: int) -> bool {
    &&& index_part(bounds.min.x.raw as int) <= x < index_part(bounds.max.x.raw as int)
    &&& index_part(bounds.min.y.raw as int) <= y < index_part(bounds.max.y.raw as int)
}

impl ScreenTriangle {
    /// Whether the centre of pixel `(x, y)` lies strictly inside the triangle.
    pub open spec fn covers(self, x: int, y: int) -> bool {
        inside(pixel_center(x, y), self.sc0, self.sc1, self.sc2)
    }

    /// The barycentric weights of the centre of pixel `(x, y)`.
    pub open spec fn weights(self, x: int, y: int) -> Vec3 {
        weights_spec(pixel_center(x, y), self.sc0, self.sc1, self.sc2)
    }

    /// The perspective correction at pixel `(x, y)`, which is also the depth
    /// of the triangle there: one over the blend of the reciprocals of `w`.
    pub open spec fn depth(self, x: int, y: int) -> Fixed {
        correction_spec(self.weights(x, y), self.rec0, self.rec1, self.rec2)
    }

    /// The colour the shader of `state` gives the triangle at pixel `(x, y)`.
    pub open spec fn color(self, state: Shading, x: int, y: int) -> u32 {
        state.shade_spec(self.v0, self.v1, self.v2, self.weights(x, y), self.depth(x, y)) as u32
    }

    /// Whether the triangle's fragment at pixel `(x, y)` replaces a stored
    /// depth `stored`: the pixel is covered and the triangle strictly nearer.
    pub open spec fn wins(self, stored: Fixed, x: int, y: int) -> bool {
        self.covers(x, y) && self.depth(x, y).raw < stored.raw
    }
}

/// The perspective correction for given weights and reciprocals of `w`.
pub open spec fn correction_spec(weights: Vec3, rec0: Fixed, rec1: Fixed, rec2: Fixed) -> Fixed {
    (Fixed { raw: 65536 }).div_spec(blend_spec(rec0, rec1, rec2, weights))
}

/// The depth buffer after a triangle was drawn over `depth`, for a frame of
/// the given height.
#[verifier::opaque]
pub open spec fn depth_after(
    s: ScreenTriangle,
    bounds: BoundingBox2D,
    height: int,
    depth: Seq<Fixed>,
) -> Seq<Fixed> {
    Seq::new(
        depth.len(),
        |i: int|
            if in_scan(bounds, i / height, i % height) && s.wins(depth[i], i / height, i % height) {
                s.depth(i / height, i % height)
            } else {
                depth[i]
            },
    )
}

/// The pixels after a triangle was drawn over `pixels`, with the depth
/// buffer `depth` as it was before the draw.
#[verifier::opaque]
pub open spec fn pixels_after(
    s: ScreenTriangle,
    bounds: BoundingBox2D,
    state: Shading,
    height: int,
    depth: Seq<Fixed>,
    pixels: Seq<u32>,
) -> Seq<u32> {
    Seq::new(
        pixels.len(),
        |i: int|
            if in_scan(bounds, i / height, i % height) && s.wins(depth[i], i / height, i % height) {
                s.color(state, i / height, i % height)
            } else {
                pixels[i]
            },
    )
}

/// The screen position of a point in normalized device coordinates.
fn screen_point(ndc: Vec4, viewport: Vec2) -> (r: Vec2)
    ensures
        r == screen_point_spec(ndc, viewport),
{
    let minus_one: Fixed = Fixed::from_raw(-65536);
    let x: Fixed = map_to_range(ndc.x, minus_one, Fixed::one(), Fixed::zero(), viewport.x);
    let y: Fixed = map_to_range(ndc.y.neg(), minus_one, Fixed::one(), Fixed::zero(), viewport.y);
    Vec2 { x, y }
}

/// Divides a clip-space triangle by `w` and maps it to the viewport.
pub fn project_triangle(triangle: &Triangle, viewport: Vec2) -> (s: ScreenTriangle)
    ensures
        s == project_spec(*triangle, viewport),
{
    let rec0: Fixed = Fixed::one().div(triangle.v0.position.w);
    let rec1: Fixed = Fixed::one().div(triangle.v1.position.w);
    let rec2: Fixed = Fixed::one().div(triangle.v2.position.w);
    // Clip space divided by w is normalized device coordinates: what is
    // visible has x, y and z between -1 and 1.
    let ndc0: Vec4 = triangle.v0.position.mul(rec0);
    let ndc1: Vec4 = triangle.v1.position.mul(rec1);
    let ndc2: Vec4 = triangle.v2.position.mul(rec2);
    let v0: Vertex = triangle.v0.mul(rec0);
    let v1: Vertex = triangle.v1.mul(rec1);
    let v2: Vertex = triangle.v2.mul(rec2);
    ScreenTriangle {
        sc0: screen_point(ndc0, viewport),
        sc1: screen_point(ndc1, viewport),
        sc2: screen_point(ndc2, viewport),
        rec0,
        rec1,
        rec2,
        v0,
        v1,
        v2,
    }
}

/// The depth stored at a visited pixel after the triangle's fragment, if
/// any, was tested against `stored`.
pub open spec fn depth_at(s: ScreenTriangle, stored: Fixed, x: int, y: int) -> Fixed {
    if s.wins(stored, x, y) {
        s.depth(x, y)
    } else {
        stored
    }
}

/// The colour stored at a visited pixel after the triangle's fragment, if
/// any, was tested against the depth `stored`.
pub open spec fn color_at(
    s: ScreenTriangle,
    state: Shading,
    stored: Fixed,
    pixel: u32,
    x: int,
    y: int,
) -> u32 {
    if s.wins(stored, x, y) {
        s.color(state, x, y)
    } else {
        pixel
    }
}

/// The depth buffer after a clip-space triangle was drawn over `depth`.
pub open spec fn drawn_depth(t: Triangle, viewport: Vec2, height: int, depth: Seq<Fixed>) -> Seq<
    Fixed,
> {
    let s = project_spec(t, viewport);
    depth_after(s, scan_bounds_spec(s, viewport), height, depth)
}

/// The pixels after a clip-space triangle was drawn over `pixels`, with the
/// depth buffer `depth` as it was before the draw.
pub open spec fn drawn_pixels(
    t: Triangle,
    state: Shading,
    viewport: Vec2,
    height: int,
    depth: Seq<Fixed>,
    pixels: Seq<u32>,
) -> Seq<u32> {
    let s = project_spec(t, viewport);
    pixels_after(s, scan_bounds_spec(s, viewport), state, height, depth, pixels)
}

/// The centre of a pixel.
fn center_of(x: usize, y: usize) -> (r: Vec2)
    requires
        x < 32767,
        y < 32767,
    ensures
        r == pixel_center(x as int, y as int),
{
    Vec2 {
        x: Fixed { raw: (x as i32) * 65536 + 32768 },
        y: Fixed { raw: (y as i32) * 65536 + 32768 },
    }
}

/// The barycentric weights and the depth of the triangle at pixel `(x, y)`,
/// or `None` where the pixel's centre is not strictly inside.
fn fragment_at(s: &ScreenTriangle, area: i128, x: usize, y: usize) -> (r: Option<(Vec3, Fixed)>)
    requires
        x < 32767,
        y < 32767,
        area == edge_spec(s.sc0, s.sc1, s.sc2),
    ensures
        r.is_some() == s.covers(x as int, y as int),
        r.is_some() ==> r.unwrap().0 == s.weights(x as int, y as int),
        r.is_some() ==> r.unwrap().1 == s.depth(x as int, y as int),
{
    let coords: Vec2 = center_of(x, y);
    let bary: Option<Vec3> = barycentric_coordinates(coords, s.sc0, s.sc1, s.sc2, area);
    match bary {
        Some(b) => {
            let correction: Fixed = Fixed::one().div(blend(s.rec0, s.rec1, s.rec2, b));
            Some((b, correction))
        },
        None => None,
    }
}

/// Tests and shades the one pixel `(x, y)`.
#[verifier::rlimit(50)]
fn shade_pixel(
    s: &ScreenTriangle,
    area: i128,
    render_state: &RenderState,
    x: usize,
    y: usize,
    zbuff: &mut Vec<Fixed>,
    frame: &mut Frame,
)
    requires
        old(frame).wf(),
        old(zbuff)@.len() == old(frame).pixels@.len(),
        x < old(frame).width,
        y < old(frame).height,
        area == edge_spec(s.sc0, s.sc1, s.sc2),
    ensures
        final(frame).wf(),
        final(frame).width == old(frame).width,
        final(frame).height == old(frame).height,
        final(zbuff)@ == old(zbuff)@.update(
            pixel_index(x as int, y as int, old(frame).height as int),
            depth_at(
                *s,
                old(zbuff)@[pixel_index(x as int, y as int, old(frame).height as int)],
                x as int,
                y as int,
            ),
        ),
        final(frame).pixels@ == old(frame).pixels@.update(
            pixel_index(x as int, y as int, old(frame).height as int),
            color_at(
                *s,
                render_state@,
                old(zbuff)@[pixel_index(x as int, y as int, old(frame).height as int)],
                old(frame).pixels@[pixel_index(x as int, y as int, old(frame).height as int)],
                x as int,
                y as int,
            ),
        ),
{
    proof {
        lemma_pixel_index(x as int, y as int, frame.width as int, frame.height as int);
    }
    let pixel_id: usize = x * frame.height + y;
    let ghost stored = zbuff@[pixel_id as int];
    let ghost pixel = frame.pixels@[pixel_id as int];
    match fragment_at(s, area, x, y) {
        Some((b, correction)) => {
            let depth: Fixed = correction;
            if depth.raw < zbuff[pixel_id].raw {
                zbuff[pixel_id] = depth;
                let color: u32 = render_state.shade([&s.v0, &s.v1, &s.v2], b, correction);
                frame.draw(x as u16, y as u16, color);
                assert(s.wins(stored, x as int, y as int));
                assert(color == s.color(render_state@, x as int, y as int));
            } else {
                assert(!s.wins(stored, x as int, y as int));
            }
        },
        None => {
            assert(!s.wins(stored, x as int, y as int));
        },
    }
    assert(zbuff@ =~= old(zbuff)@.update(
        pixel_id as int,
        depth_at(*s, stored, x as int, y as int),
    ));
    assert(frame.pixels@ =~= old(frame).pixels@.update(
        pixel_id as int,
        color_at(*s, render_state@, stored, pixel, x as int, y as int),
    ));
}

/// Tests and shades the pixels of row `y` in the columns `lo_x..hi_x`.
#[verifier::rlimit(50)]
fn scan_row(
    s: &ScreenTriangle,
    area: i128,
    render_state: &RenderState,
    y: usize,
    lo_x: usize,
    hi_x: usize,
    zbuff: &mut Vec<Fixed>,
    frame: &mut Frame,
)
    requires
        old(frame).wf(),
        old(zbuff)@.len() == old(frame).pixels@.len(),
        hi_x <= old(frame).width,
        y < old(frame).height,
        area == edge_spec(s.sc0, s.sc1, s.sc2),
    ensures
        final(frame).wf(),
        final(frame).width == old(frame).width,
        final(frame).height == old(frame).height,
        final(zbuff)@.len() == old(zbuff)@.len(),
        forall|i: int|
            0 <= i < old(zbuff)@.len() ==> #[trigger] final(zbuff)@[i] == if i % (old(
                frame,
            ).height as int) == y && lo_x <= i / (old(frame).height as int) < hi_x {
                depth_at(*s, old(zbuff)@[i], i / (old(frame).height as int), y as int)
            } else {
                old(zbuff)@[i]
            },
        forall|i: int|
            0 <= i < old(frame).pixels@.len() ==> #[trigger] final(frame).pixels@[i] == if i % (old(
                frame,
            ).height as int) == y && lo_x <= i / (old(frame).height as int) < hi_x {
                color_at(
                    *s,
                    render_state@,
                    old(zbuff)@[i],
                    old(frame).pixels@[i],
                    i / (old(frame).height as int),
                    y as int,
                )
            } else {
                old(frame).pixels@[i]
            },
{
    let ghost h = frame.height as int;
    let ghost w = frame.width as int;
    let mut x: usize = lo_x;
    while x < hi_x
        invariant
            frame.wf(),
            frame.width == w,
            frame.height == h,
            frame.width == old(frame).width,
            frame.height == old(frame).height,
            zbuff@.len() == old(zbuff)@.len(),
            zbuff@.len() == frame.pixels@.len(),
            hi_x <= frame.width,
            lo_x <= x,
            x <= hi_x || x == lo_x,
            y < frame.height,
            area == edge_spec(s.sc0, s.sc1, s.sc2),
            forall|i: int|
                0 <= i < zbuff@.len() ==> #[trigger] zbuff@[i] == if i % h == y && lo_x <= i / h
                    < x {
                    depth_at(*s, old(zbuff)@[i], i / h, y as int)
                } else {
                    old(zbuff)@[i]
                },
            forall|i: int|
                0 <= i < frame.pixels@.len() ==> #[trigger] frame.pixels@[i] == if i % h == y && lo_x
                    <= i / h < x {
                    color_at(*s, render_state@, old(zbuff)@[i], old(frame).pixels@[i], i / h, y as int)
                } else {
                    old(frame).pixels@[i]
                },
        decreases hi_x - x,
    {
        let ghost z_before = zbuff@;
        let ghost p_before = frame.pixels@;
        shade_pixel(s, area, render_state, x, y, zbuff, frame);
        proof {
            let id = pixel_index(x as int, y as int, h);
            lemma_pixel_index(x as int, y as int, w, h);
            assert forall|i: int| 0 <= i < zbuff@.len() implies #[trigger] zbuff@[i] == if i % h
                == y && lo_x <= i / h < x + 1 {
                depth_at(*s, old(zbuff)@[i], i / h, y as int)
            } else {
                old(zbuff)@[i]
            } by {
                lemma_index_pixel(i, w, h);
                assert(zbuff@[i] == if i == id {
                    depth_at(*s, z_before[id], x as int, y as int)
                } else {
                    z_before[i]
                });
            }
            assert forall|i: int| 0 <= i < zbuff@.len() implies #[trigger] frame.pixels@[i] == if i
                % h == y && lo_x <= i / h < x + 1 {
                color_at(*s, render_state@, old(zbuff)@[i], old(frame).pixels@[i], i / h, y as int)
            } else {
                old(frame).pixels@[i]
            } by {
                lemma_index_pixel(i, w, h);
                assert(frame.pixels@[i] == if i == id {
                    color_at(*s, render_state@, z_before[id], p_before[id], x as int, y as int)
                } else {
                    p_before[i]
                });
            }
        }
        x += 1;
    }
}

/// Rasterizes one clipped triangle into the depth buffer and the frame.
///
/// Every pixel the scan visits whose centre lies strictly inside the
/// projected triangle is depth-tested: where the triangle is strictly
/// nearer than what the depth buffer holds, its depth and its shaded colour
/// are stored. All other entries of both buffers stay as they were.
#[verifier::rlimit(50)]
pub fn draw_triangle_clipped(
    triangle: &Triangle,
    render_state: &RenderState,
    viewport: Vec2,
    zbuff: &mut Vec<Fixed>,
    frame: &mut Frame,
)
    requires
        old(frame).wf(),
        old(zbuff)@.len() == old(frame).pixels@.len(),
    ensures
        final(frame).wf(),
        final(frame).width == old(frame).width,
        final(frame).height == old(frame).height,
        final(zbuff)@.len() == old(zbuff)@.len(),
        final(frame).pixels@.len() == old(frame).pixels@.len(),
        final(zbuff)@ == drawn_depth(*triangle, viewport, old(frame).height as int, old(zbuff)@),
        final(frame).pixels@ == drawn_pixels(
            *triangle,
            render_state@,
            viewport,
            old(frame).height as int,
            old(zbuff)@,
            old(frame).pixels@,
        ),
{
    let s: ScreenTriangle = project_triangle(triangle, viewport);
    let mut bounds: BoundingBox2D = BoundingBox2D::get_bounds_from_triangle(&[s.sc0, s.sc1, s.sc2]);
    bounds.clamp(Vec2::zero(), viewport);
    let area: i128 = edge_function_cw(s.sc0, s.sc1, s.sc2);
    let lo_x: usize = whole_part(bounds.min.x);
    let lo_y: usize = whole_part(bounds.min.y);
    let max_x: usize = whole_part(bounds.max.x);
    let max_y: usize = whole_part(bounds.max.y);
    let hi_x: usize = if max_x < frame.width {
        max_x
    } else {
        frame.width
    };
    let hi_y: usize = if max_y < frame.height {
        max_y
    } else {
        frame.height
    };
    let ghost h = frame.height as int;
    let ghost w = frame.width as int;
    // Only the rows and columns of the bounding box are visited.
    let mut y: usize = lo_y;
    while y < hi_y
        invariant
            frame.wf(),
            frame.width == w,
            frame.height == h,
            frame.width == old(frame).width,
            frame.height == old(frame).height,
            zbuff@.len() == old(zbuff)@.len(),
            zbuff@.len() == frame.pixels@.len(),
            hi_x <= frame.width,
            hi_y <= frame.height,
            lo_y <= y,
            y <= hi_y || y == lo_y,
            area == edge_spec(s.sc0, s.sc1, s.sc2),
            forall|i: int|
                0 <= i < zbuff@.len() ==> #[trigger] zbuff@[i] == if lo_y <= i % h < y && lo_x <= i
                    / h < hi_x {
                    depth_at(s, old(zbuff)@[i], i / h, i % h)
                } else {
                    old(zbuff)@[i]
                },
            forall|i: int|
                0 <= i < frame.pixels@.len() ==> #[trigger] frame.pixels@[i] == if lo_y <= i % h < y
                    && lo_x <= i / h < hi_x {
                    color_at(s, render_state@, old(zbuff)@[i], old(frame).pixels@[i], i / h, i % h)
                } else {
                    old(frame).pixels@[i]
                },
        decreases hi_y - y,
    {
        scan_row(&s, area, render_state, y, lo_x, hi_x, zbuff, frame);
        y += 1;
    }
    proof {
        reveal(depth_after);
        reveal(pixels_after);
        let b = scan_bounds_spec(s, viewport);
        assert(bounds == b);
        let target_z = drawn_depth(*triangle, viewport, h, old(zbuff)@);
        let target_p = drawn_pixels(
            *triangle,
            render_state@,
            viewport,
            h,
            old(zbuff)@,
            old(frame).pixels@,
        );
        assert forall|i: int| 0 <= i < zbuff@.len() implies #[trigger] zbuff@[i] == target_z[i] by {
            if h > 0 {
                lemma_index_pixel(i, w, h);
            }
        }
        assert forall|i: int| 0 <= i < frame.pixels@.len() implies #[trigger] frame.pixels@[i]
            == target_p[i] by {
            if h > 0 {
                lemma_index_pixel(i, w, h);
            }
        }
        assert(zbuff@ =~= drawn_depth(*triangle, viewport, h, old(zbuff)@));
        assert(frame.pixels@ =~= drawn_pixels(
            *triangle,
            render_state@,
            viewport,
            h,
            old(zbuff)@,
            old(frame).pixels@,
        ));
    }
}

/// The contents of a depth buffer and of a frame's pixels.
pub struct Buffers {
    pub depth: Seq<Fixed>,
    pub pixels: Seq<u32>,
}

/// The buffers after a clipped triangle was drawn over them.
pub open spec fn draw_clipped_spec(
    t: Triangle,
    state: Shading,
    viewport: Vec2,
    height: int,
    b: Buffers,
) -> Buffers {
    Buffers {
        depth: drawn_depth(t, viewport, height, b.depth),
        pixels: drawn_pixels(t, state, viewport, height, b.depth, b.pixels),
    }
}

/// The buffers after a triangle was moved to clip space by `mvp`, culled,
/// clipped and drawn: every triangle that clipping leaves, in order.
#[verifier::opaque]
pub open spec fn draw_triangle_spec(
    t: Triangle,
    state: Shading,
    mvp: Mat4,
    viewport: Vec2,
    height: int,
    b: Buffers,
) -> Buffers {
    match clip_cull_spec(t.transform_spec(mvp)) {
        ClipResult::Empty => b,
        ClipResult::One(one) => draw_clipped_spec(one, state, viewport, height, b),
        ClipResult::Two((first, second)) => draw_clipped_spec(
            second,
            state,
            viewport,
            height,
            draw_clipped_spec(first, state, viewport, height, b),
        ),
    }
}

/// The triangle of a mesh that an index triple names.
pub open spec fn mesh_triangle(mesh: &Mesh, indices: UVec3) -> Triangle {
    Triangle {
        v0: mesh.vertices@[uvec3_indices(indices)[0] as int],
        v1: mesh.vertices@[uvec3_indices(indices)[1] as int],
        v2: mesh.vertices@[uvec3_indices(indices)[2] as int],
    }
}

/// The buffers after the first `count` triangles of a mesh were drawn, one
/// after the other, each under the matrix `mvp`.
pub open spec fn draw_mesh_spec(
    mesh: &Mesh,
    count: int,
    state: Shading,
    mvp: Mat4,
    viewport: Vec2,
    height: int,
    b: Buffers,
) -> Buffers
    decreases count,
{
    if count <= 0 {
        b
    } else {
        draw_triangle_spec(
            mesh_triangle(mesh, mesh.triangles@[count - 1]),
            state,
            mvp,
            viewport,
            height,
            draw_mesh_spec(mesh, count - 1, state, mvp, viewport, height, b),
        )
    }
}

/// Draws one triangle given in the space of its mesh: moves it to clip
/// space by `mvp`, culls and clips it, and rasterizes what is left.
#[verifier::rlimit(50)]
pub fn draw_triangle(
    vertices: [&Vertex; 3],
    render_state: &RenderState,
    mvp: &Mat4,
    view_dir: Vec3,
    viewport: Vec2,
    zbuff: &mut Vec<Fixed>,
    frame: &mut Frame,
)
    requires
        old(frame).wf(),
        old(zbuff)@.len() == old(frame).pixels@.len(),
    ensures
        final(frame).wf(),
        final(frame).width == old(frame).width,
        final(frame).height == old(frame).height,
        final(zbuff)@.len() == final(frame).pixels@.len(),
        (Buffers { depth: final(zbuff)@, pixels: final(frame).pixels@ }) == draw_triangle_spec(
            Triangle { v0: *vertices[0], v1: *vertices[1], v2: *vertices[2] },
            render_state@,
            *mvp,
            viewport,
            old(frame).height as int,
            Buffers { depth: old(zbuff)@, pixels: old(frame).pixels@ },
        ),
{
    proof {
        reveal(draw_triangle_spec);
    }
    let mut triangle: Triangle = Triangle::from_vertices(vertices);
    triangle.transform(mvp);
    let result: ClipResult = clip_cull_triangle(&triangle, view_dir);
    match result {
        ClipResult::Empty => {},
        ClipResult::One(tri) => {
            draw_triangle_clipped(&tri, render_state, viewport, zbuff, frame);
        },
        ClipResult::Two(tri) => {
            draw_triangle_clipped(&tri.0, render_state, viewport, zbuff, frame);
            draw_triangle_clipped(&tri.1, render_state, viewport, zbuff, frame);
        },
    }
}

/// A mesh about to be drawn.
pub struct RenderMesh<'a> {
    pub mesh: &'a Mesh,
}

impl<'a> RenderMesh<'a> {
    pub fn from_mesh(mesh: &'a Mesh) -> (r: RenderMesh<'a>)
        ensures
            r.mesh == mesh,
    {
        RenderMesh { mesh }
    }

    /// Draws every triangle of the mesh, in the order of its index buffer.
    /// `view_projection` is the camera's projection matrix times its view
    /// matrix; it is combined with the mesh's own transform once.
    #[verifier::rlimit(50)]
    pub fn draw_mesh(
        &self,
        render_state: &RenderState,
        view_projection: &Mat4,
        view_dir: Vec3,
        viewport: Vec2,
        zbuff: &mut Vec<Fixed>,
        frame: &mut Frame,
    )
        requires
            self.mesh.wf(),
            old(frame).wf(),
            old(zbuff)@.len() == old(frame).pixels@.len(),
        ensures
            final(frame).wf(),
            final(frame).width == old(frame).width,
            final(frame).height == old(frame).height,
            final(zbuff)@.len() == final(frame).pixels@.len(),
            (Buffers { depth: final(zbuff)@, pixels: final(frame).pixels@ }) == draw_mesh_spec(
                self.mesh,
                self.mesh.triangles@.len() as int,
                render_state@,
                view_projection.mul_mat4_spec(self.mesh.transform),
                viewport,
                old(frame).height as int,
                Buffers { depth: old(zbuff)@, pixels: old(frame).pixels@ },
            ),
    {
        let mvp: Mat4 = view_projection.mul_mat4(&self.mesh.transform);
        let ghost start = Buffers { depth: zbuff@, pixels: frame.pixels@ };
        let ghost h = frame.height as int;
        let mut i: usize = 0;
        while i < self.mesh.triangles.len()
            invariant
                self.mesh.wf(),
                frame.wf(),
                frame.width == old(frame).width,
                frame.height == h,
                h == old(frame).height,
                zbuff@.len() == frame.pixels@.len(),
                i <= self.mesh.triangles@.len(),
                mvp == view_projection.mul_mat4_spec(self.mesh.transform),
                (Buffers { depth: zbuff@, pixels: frame.pixels@ }) == draw_mesh_spec(
                    self.mesh,
                    i as int,
                    render_state@,
                    mvp,
                    viewport,
                    h,
                    start,
                ),
            decreases self.mesh.triangles@.len() - i,
        {
            let triangle: UVec3 = self.mesh.triangles[i];
            assert(indices_below(self.mesh.triangles@[i as int], self.mesh.vertices@.len() as int));
            let vertices: [&Vertex; 3] = self.mesh.get_triangle_vertices(triangle);
            draw_triangle(vertices, render_state, &mvp, view_dir, viewport, zbuff, frame);
            i += 1;
        }
    }
}

/// What a draw does to one pixel. Pixel `(x, y)` of a frame ends up with
/// the depth and the colour of the triangle where the scan visits the
/// pixel, the pixel's centre lies strictly inside the projected triangle
/// and the triangle is strictly nearer than the stored depth; everywhere
/// else the pixel keeps what it had. The buffers keep their lengths.
pub proof fn lemma_pixel_after_draw(
    t: Triangle,
    state: Shading,
    viewport: Vec2,
    width: int,
    height: int,
    b: Buffers,
    x: int,
    y: int,
)
    requires
        b.depth.len() == width * height,
        b.pixels.len() == width * height,
        0 <= x < width,
        0 <= y < height,
    ensures
        draw_clipped_spec(t, state, viewport, height, b).depth.len() == b.depth.len(),
        draw_clipped_spec(t, state, viewport, height, b).pixels.len() == b.pixels.len(),
        0 <= pixel_index(x, y, height) < b.depth.len(),
        draw_clipped_spec(t, state, viewport, height, b).depth[pixel_index(x, y, height)] == if in_scan(
            scan_bounds_spec(project_spec(t, viewport), viewport),
            x,
            y,
        ) {
            depth_at(project_spec(t, viewport), b.depth[pixel_index(x, y, height)], x, y)
        } else {
            b.depth[pixel_index(x, y, height)]
        },
        draw_clipped_spec(t, state, viewport, height, b).pixels[pixel_index(x, y, height)]
            == if in_scan(scan_bounds_spec(project_spec(t, viewport), viewport), x, y) {
            color_at(
                project_spec(t, viewport),
                state,
                b.depth[pixel_index(x, y, height)],
                b.pixels[pixel_index(x, y, height)],
                x,
                y,
            )
        } else {
            b.pixels[pixel_index(x, y, height)]
        },
{
    reveal(depth_after);
    reveal(pixels_after);
    lemma_pixel_index(x, y, width, height);
}

/// Whether a clipped triangle has a fragment at the pixel with index `i`:
/// the scan visits the pixel and the pixel's centre is inside.
pub open spec fn touches(t: Triangle, viewport: Vec2, height: int, i: int) -> bool {
    let s = project_spec(t, viewport);
    in_scan(scan_bounds_spec(s, viewport), i / height, i % height) && s.covers(
        i / height,
        i % height,
    )
}

/// The depth of a clipped triangle at the pixel with index `i`.
pub open spec fn depth_of(t: Triangle, viewport: Vec2, height: int, i: int) -> Fixed {
    project_spec(t, viewport).depth(i / height, i % height)
}

/// The colour of a clipped triangle at the pixel with index `i`.
pub open spec fn color_of(
    t: Triangle,
    state: Shading,
    viewport: Vec2,
    height: int,
    i: int,
) -> u32 {
    project_spec(t, viewport).color(state, i / height, i % height)
}

/// Drawing a triangle and then one that is strictly farther wherever both
/// have a fragment leaves the first draw's result: at every pixel the
/// nearer triangle touches, depth and colour are what they were after the
/// nearer triangle alone.
pub proof fn lemma_farther_leaves_nearer(
    near: Triangle,
    far: Triangle,
    near_state: Shading,
    far_state: Shading,
    viewport: Vec2,
    height: int,
    b: Buffers,
    i: int,
)
    requires
        b.depth.len() == b.pixels.len(),
        0 <= i < b.depth.len(),
        touches(near, viewport, height, i),
        touches(far, viewport, height, i) ==> depth_of(far, viewport, height, i).raw > depth_of(
            near,
            viewport,
            height,
            i,
        ).raw,
    ensures
        draw_clipped_spec(
            far,
            far_state,
            viewport,
            height,
            draw_clipped_spec(near, near_state, viewport, height, b),
        ).pixels[i] == draw_clipped_spec(near, near_state, viewport, height, b).pixels[i],
        draw_clipped_spec(
            far,
            far_state,
            viewport,
            height,
            draw_clipped_spec(near, near_state, viewport, height, b),
        ).depth[i] == draw_clipped_spec(near, near_state, viewport, height, b).depth[i],
        draw_clipped_spec(near, near_state, viewport, height, b).depth[i].raw <= depth_of(
            near,
            viewport,
            height,
            i,
        ).raw,
{
    reveal(depth_after);
    reveal(pixels_after);
}

/// Drawing a triangle and then a strictly nearer one overwrites: at every
/// pixel the nearer triangle touches and where the buffer held something
/// farther to begin with, depth and colour end up the nearer triangle's.
pub proof fn lemma_nearer_overwrites_farther(
    near: Triangle,
    far: Triangle,
    near_state: Shading,
    far_state: Shading,
    viewport: Vec2,
    height: int,
    b: Buffers,
    i: int,
)
    requires
        b.depth.len() == b.pixels.len(),
        0 <= i < b.depth.len(),
        touches(near, viewport, height, i),
        touches(far, viewport, height, i) ==> depth_of(far, viewport, height, i).raw > depth_of(
            near,
            viewport,
            height,
            i,
        ).raw,
        b.depth[i].raw > depth_of(near, viewport, height, i).raw,
    ensures
        draw_clipped_spec(
            near,
            near_state,
            viewport,
            height,
            draw_clipped_spec(far, far_state, viewport, height, b),
        ).pixels[i] == color_of(near, near_state, viewport, height, i),
        draw_clipped_spec(
            near,
            near_state,
            viewport,
            height,
            draw_clipped_spec(far, far_state, viewport, height, b),
        ).depth[i] == depth_of(near, viewport, height, i),
{
    reveal(depth_after);
    reveal(pixels_after);
}

/// A pixel no fragment of the triangle wins keeps its depth and colour, and
/// a draw never moves a stored depth farther away.
pub proof fn lemma_draw_only_nearer(
    t: Triangle,
    state: Shading,
    viewport: Vec2,
    height: int,
    b: Buffers,
    i: int,
)
    requires
        b.depth.len() == b.pixels.len(),
        0 <= i < b.depth.len(),
    ensures
        draw_clipped_spec(t, state, viewport, height, b).depth.len() == b.depth.len(),
        draw_clipped_spec(t, state, viewport, height, b).pixels.len() == b.pixels.len(),
        draw_clipped_spec(t, state, viewport, height, b).depth[i].raw <= b.depth[i].raw,
        !touches(t, viewport, height, i) ==> draw_clipped_spec(
            t,
            state,
            viewport,
            height,
            b,
        ).depth[i] == b.depth[i] && draw_clipped_spec(t, state, viewport, height, b).pixels[i]
            == b.pixels[i],
{
    reveal(depth_after);
    reveal(pixels_after);
}

/// A triangle without area draws nothing, and neither does one that winds
/// counter-clockwise on the screen: no pixel centre lies strictly inside
/// it, so both buffers stay as they were.
pub proof fn lemma_degenerate_draws_nothing(
    t: Triangle,
    state: Shading,
    viewport: Vec2,
    height: int,
    b: Buffers,
)
    requires
        edge_spec(
            project_spec(t, viewport).sc0,
            project_spec(t, viewport).sc1,
            project_spec(t, viewport).sc2,
        ) <= 0,
    ensures
        draw_clipped_spec(t, state, viewport, height, b).depth == b.depth,
        draw_clipped_spec(t, state, viewport, height, b).pixels == b.pixels,
{
    reveal(depth_after);
    reveal(pixels_after);
    let s = project_spec(t, viewport);
    let after = draw_clipped_spec(t, state, viewport, height, b);
    assert forall|i: int| 0 <= i < b.depth.len() implies #[trigger] after.depth[i] == b.depth[i] by {
        if s.covers(i / height, i % height) {
            lemma_weights_partition(pixel_center(i / height, i % height), s.sc0, s.sc1, s.sc2);
        }
    }
    assert forall|i: int| 0 <= i < b.pixels.len() implies #[trigger] after.pixels[i]
        == b.pixels[i] by {
        if s.covers(i / height, i % height) {
            lemma_weights_partition(pixel_center(i / height, i % height), s.sc0, s.sc1, s.sc2);
        }
    }
    assert(after.depth =~= b.depth);
    assert(after.pixels =~= b.pixels);
}

/// The scan rectangle hides no covered pixel at its lower corner, and at
/// its upper corner none before the column and the row that hold the corner
/// itself: a pixel whose centre lies strictly inside the projected triangle
/// is visited exactly when it lies left of that column and above that row.
pub proof fn lemma_scan_reaches(s: ScreenTriangle, viewport: Vec2, x: int, y: int)
    requires
        0 <= x < 32767,
        0 <= y < 32767,
        s.covers(x, y),
    ensures
        index_part(scan_bounds_spec(s, viewport).min.x.raw as int) <= x,
        index_part(scan_bounds_spec(s, viewport).min.y.raw as int) <= y,
        x <= index_part(BoundingBox2D::bounds_spec(s.sc0, s.sc1, s.sc2).max.x.raw as int),
        y <= index_part(BoundingBox2D::bounds_spec(s.sc0, s.sc1, s.sc2).max.y.raw as int),
        in_scan(scan_bounds_spec(s, viewport), x, y) <==> x < index_part(
            scan_bounds_spec(s, viewport).max.x.raw as int,
        ) && y < index_part(scan_bounds_spec(s, viewport).max.y.raw as int),
{
    lemma_inside_bounds(pixel_center(x, y), s.sc0, s.sc1, s.sc2);
}

/// Multiplying by one changes nothing.
proof fn lemma_times_one(a: Fixed)
    ensures
        a.mul_spec(Fixed { raw: 65536 }) == a,
        (Fixed { raw: 65536 }).mul_spec(a) == a,
{
    lemma_swap(a.raw as int, 65536);
    assert((a.raw as int * 65536) / 65536 == a.raw as int);
}

/// Multiplying a pair by one changes nothing.
proof fn lemma_pair_times_one(v: Vec2)
    ensures
        v.mul_spec(Fixed { raw: 65536 }) == v,
{
    lemma_times_one(v.x);
    lemma_times_one(v.y);
}

/// Multiplying a triple by one changes nothing.
proof fn lemma_triple_times_one(v: Vec3)
    ensures
        v.mul_spec(Fixed { raw: 65536 }) == v,
{
    lemma_times_one(v.x);
    lemma_times_one(v.y);
    lemma_times_one(v.z);
}

/// Multiplying a vertex by one changes nothing.
proof fn lemma_vertex_times_one(v: Vertex)
    ensures
        v.mul_spec(Fixed { raw: 65536 }) == v,
{
    lemma_times_one(v.position.x);
    lemma_times_one(v.position.y);
    lemma_times_one(v.position.z);
    lemma_times_one(v.position.w);
    lemma_triple_times_one(v.color);
    lemma_pair_times_one(v.uv);
}

/// Where every reciprocal of `w` is one, the perspective correction is one
/// for weights that sum to one.
proof fn lemma_correction_of_ones(w: Vec3)
    requires
        0 <= w.x.raw,
        0 <= w.y.raw,
        0 <= w.z.raw,
        w.x.raw + w.y.raw + w.z.raw == 65536,
    ensures
        correction_spec(w, Fixed { raw: 65536 }, Fixed { raw: 65536 }, Fixed { raw: 65536 }) == (Fixed {
            raw: 65536,
        }),
{
    let one = Fixed { raw: 65536 };
    lemma_times_one(w.x);
    lemma_times_one(w.y);
    lemma_times_one(w.z);
    assert(one.mul_spec(w.x).add_spec(one.mul_spec(w.y)).raw == w.x.raw + w.y.raw);
    assert(blend_spec(one, one, one, w).raw == 65536);
    assert(blend_spec(one, one, one, w) == one);
    assert(one.div_spec(one) == one);
}

/// With every `w` equal to one the projection is orthographic: the
/// reciprocals of `w` are one, the prepared vertices are the vertices
/// themselves, the perspective correction is exactly one at every covered
/// pixel, and the attributes a shader interpolates are the plain blend of
/// the vertex attributes by the barycentric weights.
pub proof fn lemma_orthographic(t: Triangle, viewport: Vec2, x: int, y: int)
    requires
        t.v0.position.w.raw == 65536,
        t.v1.position.w.raw == 65536,
        t.v2.position.w.raw == 65536,
        project_spec(t, viewport).covers(x, y),
    ensures
        project_spec(t, viewport).rec0.raw == 65536,
        project_spec(t, viewport).rec1.raw == 65536,
        project_spec(t, viewport).rec2.raw == 65536,
        project_spec(t, viewport).v0 == t.v0,
        project_spec(t, viewport).v1 == t.v1,
        project_spec(t, viewport).v2 == t.v2,
        project_spec(t, viewport).depth(x, y).raw == 65536,
        tex_coords_spec(
            project_spec(t, viewport).v0,
            project_spec(t, viewport).v1,
            project_spec(t, viewport).v2,
            project_spec(t, viewport).weights(x, y),
            project_spec(t, viewport).depth(x, y),
        ) == blend_spec(t.v0.uv, t.v1.uv, t.v2.uv, project_spec(t, viewport).weights(x, y)),
        blend_spec(
            project_spec(t, viewport).v0.color,
            project_spec(t, viewport).v1.color,
            project_spec(t, viewport).v2.color,
            project_spec(t, viewport).weights(x, y),
        ).mul_spec(project_spec(t, viewport).depth(x, y)) == blend_spec(
            t.v0.color,
            t.v1.color,
            t.v2.color,
            project_spec(t, viewport).weights(x, y),
        ),
{
    let s = project_spec(t, viewport);
    let one = Fixed { raw: 65536 };
    assert(one.div_spec(one) == one);
    assert(reciprocal_w(t.v0) == one);
    assert(reciprocal_w(t.v1) == one);
    assert(reciprocal_w(t.v2) == one);
    lemma_vertex_times_one(t.v0);
    lemma_vertex_times_one(t.v1);
    lemma_vertex_times_one(t.v2);
    assert(s.v0 == t.v0 && s.v1 == t.v1 && s.v2 == t.v2);
    lemma_weights_partition(pixel_center(x, y), s.sc0, s.sc1, s.sc2);
    let w = s.weights(x, y);
    lemma_correction_of_ones(w);
    assert(s.depth(x, y) == one);
    lemma_pair_times_one(blend_spec(t.v0.uv, t.v1.uv, t.v2.uv, w));
    lemma_triple_times_one(blend_spec(t.v0.color, t.v1.color, t.v2.color, w));
}

} // verus!
