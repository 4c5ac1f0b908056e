use rusterizer::fixed::floor_div_i128;
use rusterizer::fixed::saturate_i128;
use rusterizer::fixed::Fixed;
use rusterizer::fixed::Linear;
use rusterizer::vector::Mat4;
use rusterizer::vector::Vec2;
use rusterizer::vector::Vec3;
use rusterizer::vector::Vec4;

fn fx(raw: i32) -> Fixed {
    Fixed::from_raw(raw)
}

#[test]
fn one_is_65536_units() {
    assert_eq!(Fixed::one().raw, 65536);
    assert_eq!(Fixed::half().raw, 32768);
    assert_eq!(Fixed::zero().raw, 0);
    assert_eq!(Fixed::from_int(3).raw, 3 * 65536);
    assert_eq!(Fixed::from_int(-2).raw, -2 * 65536);
}

#[test]
fn from_int_saturates() {
    assert_eq!(Fixed::from_int(40000), Fixed::max_value());
    assert_eq!(Fixed::from_int(-40000), Fixed::min_value());
    assert_eq!(Fixed::from_int(32767).raw, 32767 * 65536);
    assert_eq!(Fixed::from_int(-32768).raw, i32::MIN);
}

#[test]
fn from_ratio_rounds_down() {
    assert_eq!(Fixed::from_ratio(1, 2).raw, 32768);
    assert_eq!(Fixed::from_ratio(1, 3).raw, 21845);
    assert_eq!(Fixed::from_ratio(-1, 3).raw, -21846);
    assert_eq!(Fixed::from_ratio(1, -3).raw, -21846);
    assert_eq!(Fixed::from_ratio(-1, -3).raw, 21845);
    assert_eq!(Fixed::from_ratio(255, 255).raw, 65536);
}

#[test]
fn addition_and_subtraction_saturate() {
    assert_eq!(fx(5).add(fx(7)).raw, 12);
    assert_eq!(fx(5).sub(fx(7)).raw, -2);
    assert_eq!(Fixed::max_value().add(fx(1)), Fixed::max_value());
    assert_eq!(Fixed::min_value().sub(fx(1)), Fixed::min_value());
    assert_eq!(Fixed::max_value().sub(Fixed::min_value()), Fixed::max_value());
}

#[test]
fn negation_saturates_at_the_lower_end() {
    assert_eq!(fx(65536).neg().raw, -65536);
    assert_eq!(Fixed::min_value().neg(), Fixed::max_value());
}

#[test]
fn product_is_rescaled_and_rounded_down() {
    // 1.5 * 2.5 = 3.75
    assert_eq!(fx(98304).mul(fx(163840)).raw, 245760);
    // one unit times a half is half a unit: rounds down to zero, or to minus one unit
    assert_eq!(fx(1).mul(fx(32768)).raw, 0);
    assert_eq!(fx(-1).mul(fx(32768)).raw, -1);
    assert_eq!(Fixed::from_int(200).mul(Fixed::from_int(200)), Fixed::max_value());
    assert_eq!(Fixed::from_int(200).mul(Fixed::from_int(-200)), Fixed::min_value());
    // multiplying by one changes nothing
    assert_eq!(fx(-123457).mul(Fixed::one()).raw, -123457);
}

#[test]
fn quotient_is_rounded_down() {
    assert_eq!(Fixed::from_int(1).div(Fixed::from_int(2)).raw, 32768);
    assert_eq!(Fixed::from_int(1).div(Fixed::from_int(3)).raw, 21845);
    assert_eq!(Fixed::from_int(-1).div(Fixed::from_int(3)).raw, -21846);
    assert_eq!(Fixed::from_int(1).div(Fixed::from_int(-3)).raw, -21846);
    assert_eq!(Fixed::from_int(7).div(Fixed::one()).raw, 7 * 65536);
    assert_eq!(Fixed::from_int(100).div(fx(1)), Fixed::max_value());
}

#[test]
fn division_by_zero_saturates_by_sign() {
    assert_eq!(Fixed::one().div(Fixed::zero()), Fixed::max_value());
    assert_eq!(Fixed::one().neg().div(Fixed::zero()), Fixed::min_value());
    assert_eq!(Fixed::zero().div(Fixed::zero()), Fixed::zero());
}

#[test]
fn floor_is_the_whole_part() {
    assert_eq!(fx(65536 * 3 + 1).floor(), 3);
    assert_eq!(fx(65535).floor(), 0);
    assert_eq!(fx(-1).floor(), -1);
    assert_eq!(fx(-65536).floor(), -1);
    assert_eq!(fx(-65537).floor(), -2);
    assert_eq!(Fixed::min_value().floor(), -32768);
    assert_eq!(Fixed::max_value().floor(), 32767);
}

#[test]
fn min_and_max_pick_by_raw_value() {
    assert_eq!(fx(3).min(fx(-4)).raw, -4);
    assert_eq!(fx(3).max(fx(-4)).raw, 3);
    assert_eq!(fx(3).max(fx(3)).raw, 3);
}

#[test]
fn wide_floor_division_handles_all_signs() {
    assert_eq!(floor_div_i128(7, 2), 3);
    assert_eq!(floor_div_i128(-7, 2), -4);
    assert_eq!(floor_div_i128(7, -2), -4);
    assert_eq!(floor_div_i128(-7, -2), 3);
    assert_eq!(floor_div_i128(-8, 2), -4);
    assert_eq!(floor_div_i128(0, -5), 0);
}

#[test]
fn wide_values_saturate_to_32_bits() {
    assert_eq!(saturate_i128(1 << 40), i32::MAX);
    assert_eq!(saturate_i128(-(1 << 40)), i32::MIN);
    assert_eq!(saturate_i128(-17), -17);
}

#[test]
fn vectors_work_component_by_component() {
    let a = Vec2::new(fx(10), fx(20));
    let b = Vec2::new(fx(1), fx(2));
    assert_eq!(a.add(b), Vec2::new(fx(11), fx(22)));
    assert_eq!(a.sub(b), Vec2::new(fx(9), fx(18)));
    assert_eq!(a.mul(Fixed::from_int(2)), Vec2::new(fx(20), fx(40)));
    let c = Vec3::new(fx(65536), fx(-65536), fx(3));
    assert_eq!(c.mul(Fixed::half()), Vec3::new(fx(32768), fx(-32768), fx(1)));
    let d = Vec4::new(fx(1), fx(2), fx(3), fx(4));
    assert_eq!(d.add(d), Vec4::new(fx(2), fx(4), fx(6), fx(8)));
    assert_eq!(Vec4::zero(), Vec4::new(fx(0), fx(0), fx(0), fx(0)));
}

#[test]
fn identity_matrix_keeps_positions() {
    let p = Vec4::new(Fixed::from_int(3), Fixed::from_int(-4), fx(12345), Fixed::one());
    assert_eq!(Mat4::identity().mul_vec4(p), p);
    let m = Mat4::identity();
    assert_eq!(m.mul_mat4(&m), m);
}

#[test]
fn matrix_translates_and_scales() {
    let o = Fixed::one();
    let z = Fixed::zero();
    // scale by two, then move by (5, 6, 7)
    let m = Mat4::from_cols(
        Vec4::new(Fixed::from_int(2), z, z, z),
        Vec4::new(z, Fixed::from_int(2), z, z),
        Vec4::new(z, z, Fixed::from_int(2), z),
        Vec4::new(Fixed::from_int(5), Fixed::from_int(6), Fixed::from_int(7), o),
    );
    let p = Vec4::new(Fixed::from_int(1), Fixed::from_int(2), Fixed::from_int(3), o);
    assert_eq!(
        m.mul_vec4(p),
        Vec4::new(Fixed::from_int(7), Fixed::from_int(10), Fixed::from_int(13), o)
    );
    // the product applies the right-hand matrix first
    let t = Mat4::from_cols(
        Vec4::new(o, z, z, z),
        Vec4::new(z, o, z, z),
        Vec4::new(z, z, o, z),
        Vec4::new(Fixed::from_int(1), z, z, o),
    );
    let both = m.mul_mat4(&t);
    assert_eq!(both.mul_vec4(p), m.mul_vec4(t.mul_vec4(p)));
    assert_eq!(both.mul_vec4(p).x, Fixed::from_int(9));
}
