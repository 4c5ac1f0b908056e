use rusterizer::fixed::Fixed;
use rusterizer::utils::barycentric_coordinates;
use rusterizer::utils::coords_to_index;
use rusterizer::utils::edge_function_cw;
use rusterizer::utils::index_to_coords;
use rusterizer::utils::lerp;
use rusterizer::utils::map_to_range;
use rusterizer::utils::whole_part;
use rusterizer::vector::Vec2;
use rusterizer::vector::Vec3;

fn point(x: i32, y: i32) -> Vec2 {
    Vec2::new(Fixed::from_raw(x), Fixed::from_raw(y))
}

fn whole(x: i32, y: i32) -> Vec2 {
    Vec2::new(Fixed::from_int(x), Fixed::from_int(y))
}

#[test]
fn edge_function_is_the_signed_area_formula() {
    // (p.x - a.x) * (b.y - a.y) - (p.y - a.y) * (b.x - a.x)
    assert_eq!(edge_function_cw(point(0, 0), point(0, 10), point(10, 0)), 100);
    assert_eq!(edge_function_cw(point(0, 0), point(10, 0), point(0, 10)), -100);
    assert_eq!(edge_function_cw(point(1, 2), point(4, 6), point(7, 3)), 6 * 4 - 1 * 3);
    assert_eq!(edge_function_cw(point(1, 1), point(2, 2), point(3, 3)), 0);
}

#[test]
fn edge_function_does_not_overflow_at_the_ends_of_the_range() {
    let lo = i32::MIN;
    let hi = i32::MAX;
    let span = hi as i128 - lo as i128;
    assert_eq!(edge_function_cw(point(lo, lo), point(lo, hi), point(hi, lo)), span * span);
    assert_eq!(edge_function_cw(point(lo, lo), point(hi, lo), point(lo, hi)), -span * span);
}

#[test]
fn inside_point_has_three_positive_sub_areas() {
    let v0 = point(0, 0);
    let v1 = point(0, 10);
    let v2 = point(10, 0);
    assert!(edge_function_cw(v0, v1, v2) > 0);
    let p = point(2, 2);
    assert_eq!(edge_function_cw(p, v1, v2), 60);
    assert_eq!(edge_function_cw(p, v2, v0), 20);
    assert_eq!(edge_function_cw(p, v0, v1), 20);
}

#[test]
fn outside_point_has_a_sub_area_that_is_not_positive() {
    let v0 = point(0, 0);
    let v1 = point(0, 10);
    let v2 = point(10, 0);
    for p in [point(20, 20), point(-1, 5), point(5, -1), point(6, 6)] {
        let m0 = edge_function_cw(p, v1, v2);
        let m1 = edge_function_cw(p, v2, v0);
        let m2 = edge_function_cw(p, v0, v1);
        assert!(m0 <= 0 || m1 <= 0 || m2 <= 0);
        let area = edge_function_cw(v0, v1, v2);
        assert_eq!(barycentric_coordinates(p, v0, v1, v2, area), None);
    }
}

#[test]
fn sub_areas_sum_to_the_area_and_reproduce_the_point() {
    let v0 = point(-7, 3);
    let v1 = point(5, 40);
    let v2 = point(31, -9);
    let area = edge_function_cw(v0, v1, v2);
    for p in [point(4, 9), point(100, -100), point(0, 0)] {
        let m0 = edge_function_cw(p, v1, v2);
        let m1 = edge_function_cw(p, v2, v0);
        let m2 = edge_function_cw(p, v0, v1);
        assert_eq!(m0 + m1 + m2, area);
        assert_eq!(
            m0 * v0.x.raw as i128 + m1 * v1.x.raw as i128 + m2 * v2.x.raw as i128,
            area * p.x.raw as i128
        );
        assert_eq!(
            m0 * v0.y.raw as i128 + m1 * v1.y.raw as i128 + m2 * v2.y.raw as i128,
            area * p.y.raw as i128
        );
    }
}

#[test]
fn weights_are_sub_areas_over_area_and_sum_to_one() {
    let v0 = point(0, 0);
    let v1 = point(0, 10);
    let v2 = point(10, 0);
    let area = edge_function_cw(v0, v1, v2);
    let w = barycentric_coordinates(point(2, 2), v0, v1, v2, area);
    // 60/100, 20/100 rounded down, and the rest
    assert_eq!(
        w,
        Some(Vec3::new(Fixed::from_raw(39321), Fixed::from_raw(13107), Fixed::from_raw(13108)))
    );
    let w = w.unwrap();
    assert_eq!(w.x.raw + w.y.raw + w.z.raw, 65536);
}

#[test]
fn weights_reproduce_the_point_within_rounding() {
    let v0 = whole(10, 20);
    let v1 = whole(30, 400);
    let v2 = whole(500, 60);
    let area = edge_function_cw(v0, v1, v2);
    let p = whole(100, 100);
    let w = barycentric_coordinates(p, v0, v1, v2, area).unwrap();
    assert_eq!(w.x.raw + w.y.raw + w.z.raw, 65536);
    let x = (w.x.raw as f64 * 10.0 + w.y.raw as f64 * 30.0 + w.z.raw as f64 * 500.0) / 65536.0;
    let y = (w.x.raw as f64 * 20.0 + w.y.raw as f64 * 400.0 + w.z.raw as f64 * 60.0) / 65536.0;
    assert!((x - 100.0).abs() < 0.02);
    assert!((y - 100.0).abs() < 0.02);
}

#[test]
fn point_on_an_edge_or_a_vertex_is_outside() {
    let v0 = point(0, 0);
    let v1 = point(0, 10);
    let v2 = point(10, 0);
    let area = edge_function_cw(v0, v1, v2);
    assert_eq!(barycentric_coordinates(point(0, 5), v0, v1, v2, area), None);
    assert_eq!(barycentric_coordinates(point(5, 5), v0, v1, v2, area), None);
    assert_eq!(barycentric_coordinates(point(0, 0), v0, v1, v2, area), None);
}

#[test]
fn counter_clockwise_triangle_has_no_inside() {
    let v0 = point(0, 0);
    let v1 = point(10, 0);
    let v2 = point(0, 10);
    let area = edge_function_cw(v0, v1, v2);
    assert!(area < 0);
    assert_eq!(barycentric_coordinates(point(2, 2), v0, v1, v2, area), None);
}

#[test]
fn degenerate_triangle_has_no_inside() {
    let v0 = point(0, 0);
    let v1 = point(5, 5);
    let v2 = point(10, 10);
    let area = edge_function_cw(v0, v1, v2);
    assert_eq!(area, 0);
    for p in [point(5, 5), point(1, 2), point(2, 1)] {
        assert_eq!(barycentric_coordinates(p, v0, v1, v2, area), None);
    }
}

#[test]
fn lerp_is_min_plus_difference_times_t() {
    let a = Fixed::from_int(10);
    let b = Fixed::from_int(20);
    assert_eq!(lerp(a, b, Fixed::zero()), a);
    assert_eq!(lerp(a, b, Fixed::one()), b);
    assert_eq!(lerp(a, b, Fixed::half()), Fixed::from_int(15));
    assert_eq!(lerp(b, a, Fixed::from_ratio(1, 4)).raw, 20 * 65536 - 10 * 16384);
    assert_eq!(lerp(whole(0, 8), whole(4, 0), Fixed::half()), whole(2, 4));
}

#[test]
fn map_to_range_is_affine() {
    let minus_one = Fixed::from_int(-1);
    let one = Fixed::one();
    let zero = Fixed::zero();
    let size = Fixed::from_int(640);
    assert_eq!(map_to_range(minus_one, minus_one, one, zero, size), zero);
    assert_eq!(map_to_range(one, minus_one, one, zero, size), size);
    assert_eq!(map_to_range(zero, minus_one, one, zero, size), Fixed::from_int(320));
    assert_eq!(map_to_range(Fixed::half(), minus_one, one, zero, size), Fixed::from_int(480));
    assert_eq!(map_to_range(Fixed::from_int(3), minus_one, one, zero, size), Fixed::from_int(1280));
    // a source range that runs downwards
    assert_eq!(map_to_range(Fixed::half(), one, minus_one, zero, size), Fixed::from_int(160));
    // one rounding, downwards
    assert_eq!(
        map_to_range(Fixed::from_raw(1), zero, Fixed::from_raw(3), zero, Fixed::from_raw(10)).raw,
        3
    );
    assert_eq!(
        map_to_range(Fixed::from_raw(-1), zero, Fixed::from_raw(3), zero, Fixed::from_raw(10)).raw,
        -4
    );
}

#[test]
fn map_to_range_saturates() {
    let big = Fixed::from_int(30000);
    assert_eq!(
        map_to_range(big, Fixed::zero(), Fixed::one(), Fixed::zero(), Fixed::from_int(2)),
        Fixed::max_value()
    );
}

#[test]
fn index_splits_into_column_and_row() {
    assert_eq!(index_to_coords(1234, 100), (12, 34));
    assert_eq!(index_to_coords(0, 7), (0, 0));
    assert_eq!(index_to_coords(6, 7), (0, 6));
    assert_eq!(index_to_coords(7, 7), (1, 0));
}

#[test]
fn coordinates_join_into_an_index() {
    let c = Vec2::new(Fixed::from_raw(3 * 65536 + 40000), Fixed::from_raw(4 * 65536 + 10));
    assert_eq!(coords_to_index(c, 100), 304);
    assert_eq!(index_to_coords(coords_to_index(c, 100), 100), (3, 4));
    let negative = Vec2::new(Fixed::from_int(-5), Fixed::from_int(9));
    assert_eq!(coords_to_index(negative, 100), 9);
}

#[test]
fn whole_part_truncates_and_stops_at_zero() {
    assert_eq!(whole_part(Fixed::from_raw(5 * 65536 + 1)), 5);
    assert_eq!(whole_part(Fixed::from_raw(65535)), 0);
    assert_eq!(whole_part(Fixed::from_raw(-1)), 0);
    assert_eq!(whole_part(Fixed::min_value()), 0);
    assert_eq!(whole_part(Fixed::max_value()), 32767);
}

#[test]
fn weights_miss_the_point_by_less_than_the_extent_of_the_triangle() {
    let v0 = point(-70_000, 30_000);
    let v1 = point(50_000, 4_000_000);
    let v2 = point(3_100_000, -90_000);
    let area = edge_function_cw(v0, v1, v2);
    assert!(area > 0);
    let mut inside = 0;
    for i in 0..30 {
        for j in 0..30 {
            let p = point(-70_000 + i * 105_000, -90_000 + j * 136_000);
            if let Some(w) = barycentric_coordinates(p, v0, v1, v2, area) {
                inside += 1;
                let blend = |c0: i32, c1: i32, c2: i32| {
                    w.x.raw as i64 * c0 as i64 + w.y.raw as i64 * c1 as i64 + w.z.raw as i64 * c2 as i64
                };
                let dx = blend(v0.x.raw, v1.x.raw, v2.x.raw) - 65536 * p.x.raw as i64;
                let dy = blend(v0.y.raw, v1.y.raw, v2.y.raw) - 65536 * p.y.raw as i64;
                assert!(dx.abs() <= 3_170_000 + 3_050_000);
                assert!(dy.abs() <= 120_000 + 4_090_000);
            }
        }
    }
    assert!(inside > 100);
}
