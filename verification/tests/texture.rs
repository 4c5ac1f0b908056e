use rusterizer::fixed::Fixed;
use rusterizer::texture::Texture;
use rusterizer::texture::TextureError;
use rusterizer::texture::MISSING_TEXEL;

fn two_by_two() -> Texture {
    Texture { width: 2, height: 2, data: vec![10, 11, 20, 21], depth: 4 }
}

#[test]
fn three_channel_pixels_become_opaque() {
    let data: Vec<u8> = vec![1, 2, 3, 4, 5, 6];
    let t = Texture::from_pixels(2, 1, 3, &data).unwrap();
    assert_eq!(t.width, 2);
    assert_eq!(t.height, 1);
    assert_eq!(t.depth, 3);
    assert_eq!(t.data, vec![0xff01_0203, 0xff04_0506]);
}

#[test]
fn four_channel_pixels_keep_their_alpha() {
    let data: Vec<u8> = vec![1, 2, 3, 0x80, 5, 6, 7, 0];
    let t = Texture::from_pixels(1, 2, 4, &data).unwrap();
    assert_eq!(t.data, vec![0x8001_0203, 0x0005_0607]);
}

#[test]
fn bytes_after_the_last_whole_pixel_are_ignored() {
    let data: Vec<u8> = vec![1, 2, 3, 4, 5];
    let t = Texture::from_pixels(1, 1, 3, &data).unwrap();
    assert_eq!(t.data, vec![0xff01_0203]);
    let t = Texture::from_pixels(1, 1, 4, &data).unwrap();
    assert_eq!(t.data, vec![0x0401_0203]);
}

#[test]
fn other_depths_are_rejected() {
    let data: Vec<u8> = vec![1, 2, 3, 4];
    for depth in [0usize, 1, 2, 5] {
        assert_eq!(
            Texture::from_pixels(2, 2, depth, &data).err(),
            Some(TextureError::UnsupportedDepth)
        );
    }
}

#[test]
fn sample_index_is_column_times_height_plus_row() {
    let t = two_by_two();
    let zero = Fixed::zero();
    let half = Fixed::half();
    assert_eq!(t.argb_at_uv(zero, zero), 10);
    assert_eq!(t.argb_at_uv(zero, half), 11);
    assert_eq!(t.argb_at_uv(half, zero), 20);
    assert_eq!(t.argb_at_uv(half, half), 21);
}

#[test]
fn sample_rounds_to_the_nearest_texel() {
    let t = two_by_two();
    let zero = Fixed::zero();
    // 0.2 * 2 = 0.4 rounds to 0; 0.25 * 2 = 0.5 rounds to 1
    assert_eq!(t.argb_at_uv(Fixed::from_ratio(1, 5), zero), 10);
    assert_eq!(t.argb_at_uv(Fixed::from_ratio(1, 4), zero), 20);
    assert_eq!(t.argb_at_uv(zero, Fixed::from_ratio(1, 4)), 11);
}

#[test]
fn sample_repeats_with_period_one_and_ignores_the_sign() {
    let t = two_by_two();
    let zero = Fixed::zero();
    let half = Fixed::half();
    assert_eq!(t.argb_at_uv(Fixed::from_raw(3 * 65536 + 32768), zero), 20);
    assert_eq!(t.argb_at_uv(half.neg(), zero), 20);
    assert_eq!(t.argb_at_uv(Fixed::from_int(-7), Fixed::from_int(5)), 10);
    assert_eq!(t.argb_at_uv(Fixed::min_value(), zero), 10);
}

#[test]
fn sample_outside_the_data_is_magenta() {
    let t = two_by_two();
    assert_eq!(MISSING_TEXEL, 0xffff_00ff);
    // 0.75 * 2 = 1.5 rounds to column 2, which the data does not have
    assert_eq!(t.argb_at_uv(Fixed::from_ratio(3, 4), Fixed::zero()), MISSING_TEXEL);
    let empty = Texture { width: 4, height: 4, data: Vec::new(), depth: 4 };
    assert_eq!(empty.argb_at_uv(Fixed::zero(), Fixed::zero()), MISSING_TEXEL);
}

#[test]
fn row_that_rounds_up_to_the_height_reads_the_next_column() {
    let t = two_by_two();
    // v = 0.75 rounds to row 2: index 0 * 2 + 2
    assert_eq!(t.argb_at_uv(Fixed::zero(), Fixed::from_ratio(3, 4)), 20);
}
