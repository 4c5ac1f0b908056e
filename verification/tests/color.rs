use rusterizer::color::channel_from_fixed;
use rusterizer::color::to_argb8;
use rusterizer::color::Color;
use rusterizer::fixed::Fixed;

#[test]
fn packs_channels_high_to_low() {
    assert_eq!(to_argb8(0x12, 0x34, 0x56, 0x78), 0x1234_5678);
    assert_eq!(to_argb8(255, 255, 0, 255), 0xffff_00ff);
    assert_eq!(to_argb8(0, 0, 0, 0), 0);
}

#[test]
fn color_packs_like_the_free_function() {
    let c = Color { a: 1, r: 2, g: 3, b: 4 };
    assert_eq!(c.to_argb8(), 0x0102_0304);
    assert_eq!(c.to_argb8(), to_argb8(1, 2, 3, 4));
}

#[test]
fn unpacks_each_channel() {
    let c = Color::from_argb8(0xff11_0012);
    assert_eq!(c, Color { a: 0xff, r: 0x11, g: 0x00, b: 0x12 });
}

#[test]
fn unpacks_what_it_packed() {
    let c = Color { a: 255, r: 1, g: 2, b: 3 };
    assert_eq!(Color::from_argb8(c.to_argb8()), c);
    for word in [0u32, 1, 0xdead_beef, u32::MAX, 0x8000_0000] {
        assert_eq!(Color::from_argb8(word).to_argb8(), word);
    }
}

#[test]
fn channel_arithmetic() {
    let a = Color { a: 10, r: 20, g: 30, b: 40 };
    let b = Color { a: 1, r: 2, g: 3, b: 4 };
    assert_eq!(a.add(b), Color { a: 11, r: 22, g: 33, b: 44 });
    assert_eq!(a.sub(b), Color { a: 9, r: 18, g: 27, b: 36 });
    assert_eq!(a.mul(b), Color { a: 10, r: 40, g: 90, b: 160 });
    assert_eq!(a.div(b), Color { a: 10, r: 10, g: 10, b: 10 });
    let mut c = a;
    c.add_assign(b);
    assert_eq!(c, a.add(b));
}

#[test]
fn channel_from_fixed_truncates_and_clamps() {
    assert_eq!(channel_from_fixed(Fixed::from_int(200)), 200);
    assert_eq!(channel_from_fixed(Fixed::from_raw(200 * 65536 + 65535)), 200);
    assert_eq!(channel_from_fixed(Fixed::from_int(256)), 255);
    assert_eq!(channel_from_fixed(Fixed::from_int(-3)), 0);
    assert_eq!(channel_from_fixed(Fixed::from_raw(-1)), 0);
}

#[test]
fn scalar_arithmetic_uses_the_whole_part_of_the_scalar() {
    let a = Color { a: 10, r: 20, g: 30, b: 40 };
    assert_eq!(a.mul_scalar(Fixed::from_int(3)), Color { a: 30, r: 60, g: 90, b: 120 });
    assert_eq!(a.mul_scalar(Fixed::from_raw(3 * 65536 + 60000)), a.mul_scalar(Fixed::from_int(3)));
    assert_eq!(a.mul_scalar(Fixed::from_int(-2)), Color { a: 0, r: 0, g: 0, b: 0 });
    assert_eq!(a.div_scalar(Fixed::from_int(3)), Color { a: 3, r: 6, g: 10, b: 13 });
    assert_eq!(a.div_scalar(Fixed::from_int(1000)), Color { a: 0, r: 0, g: 0, b: 0 });
}
