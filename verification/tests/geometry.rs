use rusterizer::fixed::Fixed;
use rusterizer::geometry::clip_cull_triangle;
use rusterizer::geometry::clip_triangle_one_negative;
use rusterizer::geometry::clip_triangle_two_negatives;
use rusterizer::geometry::cull_triangle_backface;
use rusterizer::geometry::cull_triangle_view_frustum;
use rusterizer::geometry::evaluate_clip_vertices;
use rusterizer::geometry::BoundingBox2D;
use rusterizer::geometry::ClipEvaluation;
use rusterizer::geometry::ClipResult;
use rusterizer::geometry::Triangle;
use rusterizer::geometry::VerticesOrder;
use rusterizer::mesh::Vertex;
use rusterizer::vector::Mat4;
use rusterizer::vector::Vec2;
use rusterizer::vector::Vec3;
use rusterizer::vector::Vec4;

fn fx(v: f64) -> Fixed {
    Fixed::from_raw((v * 65536.0).round() as i32)
}

fn vertex(x: f64, y: f64, z: f64, w: f64) -> Vertex {
    Vertex {
        position: Vec4::new(fx(x), fx(y), fx(z), fx(w)),
        color: Vec3::new(fx(x.abs()), fx(y.abs()), fx(0.25)),
        uv: Vec2::new(fx(x), fx(y)),
    }
}

fn triangle(z0: f64, z1: f64, z2: f64) -> Triangle {
    Triangle {
        v0: vertex(-0.5, -0.5, z0, 1.0),
        v1: vertex(0.5, -0.5, z1, 1.0),
        v2: vertex(0.0, 0.5, z2, 1.0),
    }
}

fn view_dir() -> Vec3 {
    Vec3::new(fx(0.0), fx(0.0), fx(1.0))
}

fn midpoint(a: Vertex, b: Vertex) -> Vertex {
    let half = |p: Fixed, q: Fixed| Fixed::from_raw(p.raw + (q.raw - p.raw).div_euclid(2));
    Vertex {
        position: Vec4::new(
            half(a.position.x, b.position.x),
            half(a.position.y, b.position.y),
            half(a.position.z, b.position.z),
            half(a.position.w, b.position.w),
        ),
        color: Vec3::new(
            half(a.color.x, b.color.x),
            half(a.color.y, b.color.y),
            half(a.color.z, b.color.z),
        ),
        uv: Vec2::new(half(a.uv.x, b.uv.x), half(a.uv.y, b.uv.y)),
    }
}

fn cross_z(t: &Triangle) -> i64 {
    let ax = (t.v1.position.x.raw - t.v0.position.x.raw) as i64;
    let ay = (t.v1.position.y.raw - t.v0.position.y.raw) as i64;
    let bx = (t.v2.position.x.raw - t.v0.position.x.raw) as i64;
    let by = (t.v2.position.y.raw - t.v0.position.y.raw) as i64;
    ax * by - ay * bx
}

#[test]
fn reorder_gives_each_of_the_six_orders() {
    let t = triangle(1.0, 2.0, 3.0);
    let (a, b, c) = (t.v0, t.v1, t.v2);
    assert_eq!(t.reorder(VerticesOrder::ABC), Triangle { v0: a, v1: b, v2: c });
    assert_eq!(t.reorder(VerticesOrder::ACB), Triangle { v0: a, v1: c, v2: b });
    assert_eq!(t.reorder(VerticesOrder::BAC), Triangle { v0: b, v1: a, v2: c });
    assert_eq!(t.reorder(VerticesOrder::BCA), Triangle { v0: b, v1: c, v2: a });
    assert_eq!(t.reorder(VerticesOrder::CAB), Triangle { v0: c, v1: a, v2: b });
    assert_eq!(t.reorder(VerticesOrder::CBA), Triangle { v0: c, v1: b, v2: a });
}

#[test]
fn rotations_keep_the_winding_and_swaps_reverse_it() {
    let t = triangle(1.0, 1.0, 1.0);
    let area = cross_z(&t);
    assert!(area > 0);
    for order in [VerticesOrder::ABC, VerticesOrder::BCA, VerticesOrder::CAB] {
        assert_eq!(cross_z(&t.reorder(order)), area);
    }
    for order in [VerticesOrder::ACB, VerticesOrder::BAC, VerticesOrder::CBA] {
        assert_eq!(cross_z(&t.reorder(order)), -area);
    }
}

#[test]
fn from_vertices_keeps_the_order() {
    let a = vertex(1.0, 2.0, 3.0, 4.0);
    let b = vertex(5.0, 6.0, 7.0, 8.0);
    let c = vertex(9.0, 10.0, 11.0, 12.0);
    let t = Triangle::from_vertices([&a, &b, &c]);
    assert_eq!(t, Triangle { v0: a, v1: b, v2: c });
}

#[test]
fn transform_moves_positions_only() {
    let o = Fixed::one();
    let z = Fixed::zero();
    let shift = Mat4::from_cols(
        Vec4::new(o, z, z, z),
        Vec4::new(z, o, z, z),
        Vec4::new(z, z, o, z),
        Vec4::new(fx(1.0), fx(2.0), fx(3.0), o),
    );
    let before = triangle(1.0, 1.0, 1.0);
    let mut t = before;
    t.transform(&shift);
    assert_eq!(t.v0.position, Vec4::new(fx(0.5), fx(1.5), fx(4.0), fx(1.0)));
    assert_eq!(t.v1.position, Vec4::new(fx(1.5), fx(1.5), fx(4.0), fx(1.0)));
    assert_eq!(t.v2.position, Vec4::new(fx(1.0), fx(2.5), fx(4.0), fx(1.0)));
    assert_eq!(t.v0.color, before.v0.color);
    assert_eq!(t.v1.uv, before.v1.uv);
}

#[test]
fn frustum_keeps_what_is_inside_or_straddles() {
    assert!(!cull_triangle_view_frustum(&triangle(0.5, 0.5, 0.5)));
    // one vertex far to the right, the others inside
    let mut t = triangle(0.5, 0.5, 0.5);
    t.v1.position.x = fx(5.0);
    assert!(!cull_triangle_view_frustum(&t));
    // exactly on a plane is not outside
    let mut t = triangle(1.0, 1.0, 1.0);
    t.v0.position.x = fx(1.0);
    t.v1.position.x = fx(1.0);
    t.v2.position.x = fx(1.0);
    assert!(!cull_triangle_view_frustum(&t));
}

#[test]
fn frustum_rejects_what_is_wholly_outside_one_plane() {
    for axis in 0..3 {
        for sign in [-1.0, 1.0] {
            let mut t = triangle(0.5, 0.5, 0.5);
            for v in [&mut t.v0, &mut t.v1, &mut t.v2] {
                let far = fx(sign * 1.5);
                match axis {
                    0 => v.position.x = far,
                    1 => v.position.y = far,
                    _ => v.position.z = far,
                }
            }
            assert!(cull_triangle_view_frustum(&t));
        }
    }
}

#[test]
fn frustum_rejects_what_is_wholly_behind_the_camera() {
    let mut t = triangle(-0.1, -0.2, -0.3);
    for v in [&mut t.v0, &mut t.v1, &mut t.v2] {
        v.position.w = fx(5.0);
    }
    assert!(cull_triangle_view_frustum(&t));
    t.v2.position.z = fx(0.0);
    assert!(!cull_triangle_view_frustum(&t));
}

#[test]
fn backface_test_goes_by_the_winding() {
    let front = triangle(1.0, 1.0, 1.0);
    assert!(!cull_triangle_backface(&front, view_dir()));
    assert!(cull_triangle_backface(&front.reorder(VerticesOrder::ACB), view_dir()));
    // the view direction handed in plays no part
    assert!(!cull_triangle_backface(&front, Vec3::new(fx(1.0), fx(0.0), fx(0.0))));
}

#[test]
fn backface_test_rejects_a_triangle_seen_edge_on() {
    let mut t = triangle(1.0, 1.0, 1.0);
    t.v2.position.x = fx(0.0);
    t.v2.position.y = fx(-0.5);
    assert!(cull_triangle_backface(&t, view_dir()));
}

#[test]
fn vertices_are_classified_about_the_near_plane() {
    let e = |a: f64, b: f64, c: f64| evaluate_clip_vertices(&triangle(a, b, c));
    assert_eq!(e(1.0, 1.0, 1.0), ClipEvaluation::AllPositive);
    assert_eq!(e(-1.0, -1.0, -1.0), ClipEvaluation::AllNegative);
    assert_eq!(e(0.0, 0.0, 0.0), ClipEvaluation::AllNegative);
    assert_eq!(e(-1.0, 1.0, 1.0), ClipEvaluation::OneNegative(0));
    assert_eq!(e(1.0, 0.0, 1.0), ClipEvaluation::OneNegative(1));
    assert_eq!(e(1.0, 1.0, -1.0), ClipEvaluation::OneNegative(2));
    assert_eq!(e(1.0, -1.0, -1.0), ClipEvaluation::TwoNegative(1, 2));
    assert_eq!(e(-1.0, 1.0, -1.0), ClipEvaluation::TwoNegative(0, 2));
    assert_eq!(e(-1.0, -1.0, 1.0), ClipEvaluation::TwoNegative(0, 1));
}

#[test]
fn one_vertex_behind_gives_two_triangles_that_share_the_crossing() {
    let t = triangle(-1.0, 1.0, 1.0);
    let (first, second) = clip_triangle_one_negative(&t);
    // alpha = 1 / (1 + 1): both crossings are midpoints
    let a = midpoint(t.v0, t.v1);
    let b = midpoint(t.v0, t.v2);
    assert_eq!(a.position.z, Fixed::zero());
    assert_eq!(first, Triangle { v0: a, v1: t.v1, v2: t.v2 });
    assert_eq!(second, Triangle { v0: a, v1: t.v2, v2: b });
}

#[test]
fn crossing_parameter_is_minus_z0_over_z1_minus_z0() {
    let t = triangle(-1.0, 3.0, 1.0);
    let (first, second) = clip_triangle_one_negative(&t);
    // a quarter of the way to v1, half of the way to v2
    assert_eq!(first.v0.position.x, fx(-0.25));
    assert_eq!(first.v0.position.y, fx(-0.5));
    assert_eq!(first.v0.position.z, fx(0.0));
    assert_eq!(second.v2.position.x, fx(-0.25));
    assert_eq!(second.v2.position.y, fx(0.0));
    assert_eq!(second.v2.position.z, fx(0.0));
    // attributes are cut along with the position
    assert_eq!(first.v0.uv, Vec2::new(fx(-0.25), fx(-0.5)));
    assert_eq!(second.v2.uv, Vec2::new(fx(-0.25), fx(0.0)));
}

#[test]
fn two_vertices_behind_give_the_tip_in_front() {
    let t = triangle(1.0, -1.0, -1.0);
    let out = clip_triangle_two_negatives(&t);
    assert_eq!(
        out,
        Triangle { v0: t.v0, v1: midpoint(t.v0, t.v1), v2: midpoint(t.v0, t.v2) }
    );
    let t = triangle(1.0, -3.0, -1.0);
    let out = clip_triangle_two_negatives(&t);
    assert_eq!(out.v1.position.x, fx(-0.25));
    assert_eq!(out.v1.position.z, fx(0.0));
    assert_eq!(out.v2.position.y, fx(0.0));
}

#[test]
fn clip_leaves_an_unclipped_triangle_alone() {
    let t = triangle(0.5, 0.7, 1.0);
    match clip_cull_triangle(&t, view_dir()) {
        ClipResult::One(out) => assert_eq!(out, t),
        other => panic!("expected one triangle, got {:?}", other),
    }
}

#[test]
fn clip_count_follows_the_number_of_vertices_behind() {
    let count = |a: f64, b: f64, c: f64| match clip_cull_triangle(&triangle(a, b, c), view_dir()) {
        ClipResult::Empty => 0,
        ClipResult::One(_) => 1,
        ClipResult::Two(_) => 2,
    };
    assert_eq!(count(1.0, 1.0, 1.0), 1);
    assert_eq!(count(-1.0, 1.0, 1.0), 2);
    assert_eq!(count(1.0, -1.0, 1.0), 2);
    assert_eq!(count(1.0, 1.0, -1.0), 2);
    assert_eq!(count(1.0, -1.0, -1.0), 1);
    assert_eq!(count(-1.0, 1.0, -1.0), 1);
    assert_eq!(count(-1.0, -1.0, 1.0), 1);
}

#[test]
fn all_vertices_behind_are_discarded() {
    // on the plane counts as behind, though the frustum test lets it through
    let t = triangle(0.0, 0.0, 0.0);
    assert!(!cull_triangle_view_frustum(&t));
    assert!(matches!(clip_cull_triangle(&t, view_dir()), ClipResult::Empty));
    assert!(matches!(
        clip_cull_triangle(&triangle(-1.0, -1.0, -1.0), view_dir()),
        ClipResult::Empty
    ));
}

#[test]
fn culled_triangles_leave_nothing() {
    let back = triangle(1.0, 1.0, 1.0).reorder(VerticesOrder::BAC);
    assert!(matches!(clip_cull_triangle(&back, view_dir()), ClipResult::Empty));
    let mut outside = triangle(0.5, 0.5, 0.5);
    for v in [&mut outside.v0, &mut outside.v1, &mut outside.v2] {
        v.position.y = fx(v.position.y.raw as f64 / 65536.0 + 3.0);
    }
    assert!(matches!(clip_cull_triangle(&outside, view_dir()), ClipResult::Empty));
}

#[test]
fn clip_brings_the_vertex_behind_to_the_front_by_a_rotation() {
    // the second vertex is behind: the crossings lie on its two edges
    let t = triangle(1.0, -1.0, 1.0);
    match clip_cull_triangle(&t, view_dir()) {
        ClipResult::Two((first, second)) => {
            let a = midpoint(t.v1, t.v2);
            let b = midpoint(t.v1, t.v0);
            assert_eq!(first, Triangle { v0: a, v1: t.v2, v2: t.v0 });
            assert_eq!(second, Triangle { v0: a, v1: t.v0, v2: b });
        },
        other => panic!("expected two triangles, got {:?}", other),
    }
    // the third vertex is behind
    let t = triangle(1.0, 1.0, -1.0);
    match clip_cull_triangle(&t, view_dir()) {
        ClipResult::Two((first, second)) => {
            let a = midpoint(t.v2, t.v0);
            let b = midpoint(t.v2, t.v1);
            assert_eq!(first, Triangle { v0: a, v1: t.v0, v2: t.v1 });
            assert_eq!(second, Triangle { v0: a, v1: t.v1, v2: b });
        },
        other => panic!("expected two triangles, got {:?}", other),
    }
}

#[test]
fn clip_brings_the_vertex_in_front_to_the_front_by_a_rotation() {
    let t = triangle(-1.0, 1.0, -1.0);
    match clip_cull_triangle(&t, view_dir()) {
        ClipResult::One(out) => {
            assert_eq!(
                out,
                Triangle { v0: t.v1, v1: midpoint(t.v1, t.v2), v2: midpoint(t.v1, t.v0) }
            );
        },
        other => panic!("expected one triangle, got {:?}", other),
    }
    let t = triangle(-1.0, -1.0, 1.0);
    match clip_cull_triangle(&t, view_dir()) {
        ClipResult::One(out) => {
            assert_eq!(
                out,
                Triangle { v0: t.v2, v1: midpoint(t.v2, t.v0), v2: midpoint(t.v2, t.v1) }
            );
        },
        other => panic!("expected one triangle, got {:?}", other),
    }
}

#[test]
fn clipped_triangles_wind_as_the_input_and_add_no_area() {
    for (a, b, c) in [
        (-1.0, 1.0, 1.0),
        (1.0, -1.0, 1.0),
        (1.0, 1.0, -1.0),
        (1.0, -1.0, -1.0),
        (-1.0, 1.0, -1.0),
        (-1.0, -1.0, 1.0),
        (-1.0, 3.0, 1.0),
        (1.0, -3.0, -1.0),
    ] {
        let t = triangle(a, b, c);
        let area = cross_z(&t);
        match clip_cull_triangle(&t, view_dir()) {
            ClipResult::One(out) => {
                assert!(cross_z(&out) > 0);
                assert!(cross_z(&out) <= area);
            },
            ClipResult::Two((first, second)) => {
                assert!(cross_z(&first) > 0);
                assert!(cross_z(&second) > 0);
                assert!(cross_z(&first) + cross_z(&second) <= area);
            },
            ClipResult::Empty => panic!("nothing left"),
        }
    }
}

#[test]
fn halfway_clip_keeps_three_quarters_or_one_quarter_of_the_area() {
    let t = triangle(-1.0, 1.0, 1.0);
    let area = cross_z(&t);
    let (first, second) = clip_triangle_one_negative(&t);
    assert_eq!(4 * (cross_z(&first) + cross_z(&second)), 3 * area);
    let t = triangle(1.0, -1.0, -1.0);
    assert_eq!(4 * cross_z(&clip_triangle_two_negatives(&t)), area);
}

fn inside(px: f64, py: f64, t: &Triangle) -> Option<bool> {
    let p = |v: &Vertex| (v.position.x.raw as f64 / 65536.0, v.position.y.raw as f64 / 65536.0);
    let (a, b, c) = (p(&t.v0), p(&t.v1), p(&t.v2));
    let side = |u: (f64, f64), v: (f64, f64)| (v.0 - u.0) * (py - u.1) - (v.1 - u.1) * (px - u.0);
    let (s0, s1, s2) = (side(a, b), side(b, c), side(c, a));
    let margin = 1e-3;
    if s0.abs() < margin || s1.abs() < margin || s2.abs() < margin {
        return None;
    }
    Some(s0 > 0.0 && s1 > 0.0 && s2 > 0.0)
}

fn depth_at(px: f64, py: f64, t: &Triangle) -> f64 {
    let p = |v: &Vertex| (v.position.x.raw as f64 / 65536.0, v.position.y.raw as f64 / 65536.0);
    let z = |v: &Vertex| v.position.z.raw as f64 / 65536.0;
    let (a, b, c) = (p(&t.v0), p(&t.v1), p(&t.v2));
    let area = (b.0 - a.0) * (c.1 - a.1) - (b.1 - a.1) * (c.0 - a.0);
    let w0 = ((b.0 - px) * (c.1 - py) - (b.1 - py) * (c.0 - px)) / area;
    let w1 = ((c.0 - px) * (a.1 - py) - (c.1 - py) * (a.0 - px)) / area;
    let w2 = 1.0 - w0 - w1;
    w0 * z(&t.v0) + w1 * z(&t.v1) + w2 * z(&t.v2)
}

#[test]
fn clipped_pair_covers_the_part_in_front_of_the_plane() {
    let t = triangle(-1.0, 1.0, 1.0);
    let (first, second) = match clip_cull_triangle(&t, view_dir()) {
        ClipResult::Two(pair) => pair,
        other => panic!("expected two triangles, got {:?}", other),
    };
    let mut in_front = 0;
    let mut behind = 0;
    for i in 0..40 {
        for j in 0..40 {
            let px = -0.6 + 1.2 * (i as f64 + 0.37) / 40.0;
            let py = -0.6 + 1.2 * (j as f64 + 0.61) / 40.0;
            let whole = match inside(px, py, &t) {
                Some(side) => side,
                None => continue,
            };
            let z = depth_at(px, py, &t);
            if whole && z.abs() < 1e-3 {
                continue;
            }
            let visible = whole && z > 0.0;
            let in_first = match inside(px, py, &first) {
                Some(side) => side,
                None => continue,
            };
            let in_second = match inside(px, py, &second) {
                Some(side) => side,
                None => continue,
            };
            assert!(!(in_first && in_second));
            assert_eq!(in_first || in_second, visible);
            if visible {
                in_front += 1;
            } else if whole {
                behind += 1;
            }
        }
    }
    assert!(in_front > 100);
    assert!(behind > 30);
}

#[test]
fn bounds_hold_the_three_points() {
    let p = [
        Vec2::new(fx(3.0), fx(-2.0)),
        Vec2::new(fx(-1.0), fx(7.0)),
        Vec2::new(fx(5.0), fx(4.0)),
    ];
    let b = BoundingBox2D::get_bounds_from_triangle(&p);
    assert_eq!(b.min, Vec2::new(fx(-1.0), fx(-2.0)));
    assert_eq!(b.max, Vec2::new(fx(5.0), fx(7.0)));
    assert_eq!(BoundingBox2D::new(b.min, b.max), b);
}

#[test]
fn clamp_raises_the_lower_corner_and_lowers_the_upper() {
    let mut b = BoundingBox2D::new(Vec2::new(fx(-1.0), fx(2.0)), Vec2::new(fx(5.0), fx(70.0)));
    b.clamp(Vec2::new(fx(0.0), fx(0.0)), Vec2::new(fx(64.0), fx(64.0)));
    assert_eq!(b.min, Vec2::new(fx(0.0), fx(2.0)));
    assert_eq!(b.max, Vec2::new(fx(5.0), fx(64.0)));
    // a box beyond the upper limit keeps its lower corner
    let mut b = BoundingBox2D::new(Vec2::new(fx(80.0), fx(80.0)), Vec2::new(fx(90.0), fx(90.0)));
    b.clamp(Vec2::new(fx(0.0), fx(0.0)), Vec2::new(fx(64.0), fx(64.0)));
    assert_eq!(b.min, Vec2::new(fx(80.0), fx(80.0)));
    assert_eq!(b.max, Vec2::new(fx(64.0), fx(64.0)));
}

fn raw_vertex(x: i32, y: i32, z: i32) -> Vertex {
    Vertex {
        position: Vec4::new(Fixed::from_raw(x), Fixed::from_raw(y), Fixed::from_raw(z), fx(1.0)),
        color: Vec3::new(fx(1.0), fx(0.5), fx(0.0)),
        uv: Vec2::new(Fixed::from_raw(x), Fixed::from_raw(-y)),
    }
}

fn between(a: Fixed, c: Fixed, b: Fixed) -> bool {
    (a.raw <= c.raw && c.raw <= b.raw) || (b.raw <= c.raw && c.raw <= a.raw)
}

#[test]
fn crossing_lies_between_the_ends_of_its_edge() {
    let ends = [
        (raw_vertex(-7, 300, -1), raw_vertex(900_001, -5, 65_535)),
        (raw_vertex(i32::MIN, i32::MAX, i32::MIN), raw_vertex(i32::MAX, i32::MIN, i32::MAX)),
        (raw_vertex(123_456, -654_321, 0), raw_vertex(-1, 1, 1)),
        (raw_vertex(5, 5, -200_000), raw_vertex(-5, 70_000, 3)),
    ];
    for (behind, front) in ends {
        let t = Triangle { v0: behind, v1: front, v2: front };
        let (first, _) = clip_triangle_one_negative(&t);
        let c = first.v0;
        assert!(between(behind.position.x, c.position.x, front.position.x));
        assert!(between(behind.position.y, c.position.y, front.position.y));
        assert!(between(behind.position.z, c.position.z, front.position.z));
        assert!(between(behind.position.w, c.position.w, front.position.w));
        assert!(between(behind.uv.x, c.uv.x, front.uv.x));
        assert!(between(behind.uv.y, c.uv.y, front.uv.y));
        assert_eq!(c.color, behind.color);
        let t = Triangle { v0: front, v1: behind, v2: behind };
        let c = clip_triangle_two_negatives(&t).v1;
        assert!(between(behind.position.x, c.position.x, front.position.x));
        assert!(between(behind.position.y, c.position.y, front.position.y));
        assert!(between(behind.position.z, c.position.z, front.position.z));
    }
}

#[test]
fn rounding_adds_less_area_than_twice_the_clipped_edges() {
    // the first vertex is a hair behind the plane: both crossings round to
    // a neighbour of it that lies outside the triangle
    let t = Triangle {
        v0: raw_vertex(0, 0, -1),
        v1: raw_vertex(100, -1, 65_535),
        v2: raw_vertex(-1, 100, 65_535),
    };
    let area = cross_z(&t);
    assert_eq!(area, 9999);
    let (first, second) = clip_triangle_one_negative(&t);
    assert_eq!(first.v0.position.x.raw, 0);
    assert_eq!(first.v0.position.y.raw, -1);
    assert_eq!(second.v2.position.x.raw, -1);
    assert_eq!(second.v2.position.y.raw, 0);
    let clipped = cross_z(&first) + cross_z(&second);
    assert!(clipped > area);
    assert!(clipped <= area + 2 * (101 + 101));
}
