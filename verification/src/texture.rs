//! Textures: a flat array of packed colours, stored column by column.
use crate::arith::lemma_bounded_product;
use crate::arith::lemma_quotient_bounds;
use crate::arith::lemma_scale_order;
use crate::arith::lemma_spread_two;
use crate::arith::lemma_zero_factor;
use crate::color::pack_argb;
use crate::color::to_argb8;
use crate::fixed::Fixed;
use vstd::prelude::*;

verus! {

/// The colour a texture returns for a lookup that falls outside its data:
/// opaque magenta.
pub const MISSING_TEXEL: u32 = 0xffff_00ff;

/// Why decoded image data was not accepted as a texture.
#[derive(Clone, Copy, Debug, PartialEq, Eq, Structural)]
pub enum TextureError {
    /// The image has neither three nor four channels per pixel.
    UnsupportedDepth,
}

/// The fractional part of the magnitude of a texture coordinate: a simple
/// repeat of the unit interval.
pub open spec fn wrap_raw(raw: int) -> int {
    (if raw < 0 {
        -raw
    } else {
        raw
    }) % 65536
}

/// A wrapped coordinate scaled by `size` and rounded to the nearest whole
/// number, halves rounding up.
pub open spec fn texel_coordinate(raw: int, size: int) -> int {
    (wrap_raw(raw) * size + 32768) / 65536
}

/// The linear index a lookup at `(u, v)` reads.
pub open spec fn texel_index(u: int, v: int, width: int, height: int) -> int {
    texel_coordinate(u, width) * height + texel_coordinate(v, height)
}

/// The packed colour of pixel `i` of decoded image data with `depth`
/// channels per pixel: red, green, blue and, with four channels, alpha.
/// Three-channel pixels are opaque.
pub open spec fn decoded_pixel(data: Seq<u8>, depth: int, i: int) -> int {
    if depth == 3 {
        pack_argb(255, data[i * 3] as int, data[i * 3 + 1] as int, data[i * 3 + 2] as int)
    } else {
        pack_argb(
            data[i * 4 + 3] as int,
            data[i * 4] as int,
            data[i * 4 + 1] as int,
            data[i * 4 + 2] as int,
        )
    }
}

/// An image held as packed colours.
pub struct Texture {
    pub width: usize,
    pub height: usize,
    pub data: Vec<u32>,
    pub depth: usize,
}

impl Texture {
    /// The colour a lookup at `(u, v)` returns.
    pub open spec fn sample_spec(&self, u: Fixed, v: Fixed) -> u32 {
        let id = texel_index(u.raw as int, v.raw as int, self.width as int, self.height as int);
        if id < self.data@.len() {
            self.data@[id]
        } else {
            MISSING_TEXEL
        }
    }

    /// Builds a texture from decoded 8-bit image data with `depth` channels
    /// per pixel. Only three and four channels are accepted. Bytes after the
    /// last whole pixel are ignored.
    pub fn from_pixels(width: usize, height: usize, depth: usize, data: &Vec<u8>) -> (r: Result<
        Texture,
        TextureError,
    >)
        ensures
            r.is_ok() == (depth == 3 || depth == 4),
            r.is_err() ==> r == Err::<Texture, TextureError>(TextureError::UnsupportedDepth),
            r.is_ok() ==> {
                let t = r.unwrap();
                &&& t.width == width
                &&& t.height == height
                &&& t.depth == depth
                &&& t.data@.len() == data@.len() as int / depth as int
                &&& forall|i: int|
                    0 <= i < t.data@.len() ==> #[trigger] t.data@[i] == decoded_pixel(
                        data@,
                        depth as int,
                        i,
                    )
            },
    {
        if depth != 3 && depth != 4 {
            return Err(TextureError::UnsupportedDepth);
        }
        let count: usize = data.len() / depth;
        let mut pixels: Vec<u32> = Vec::new();
        let mut id: usize = 0;
        while id < count
            invariant
                depth == 3 || depth == 4,
                data@.len() <= usize::MAX,
                count == data@.len() as int / depth as int,
                id <= count,
                pixels@.len() == id,
                forall|i: int|
                    0 <= i < id ==> #[trigger] pixels@[i] == decoded_pixel(data@, depth as int, i),
            decreases count - id,
        {
            proof {
                let len = data@.len() as int;
                let d = depth as int;
                lemma_quotient_bounds(len, d);
                lemma_scale_order(id as int + 1, count as int, d);
                lemma_scale_order(0, id as int, d);
                lemma_spread_two(d, id as int, 1);
                lemma_zero_factor(d);
            }
            let base: usize = id * depth;
            let pixel: u32 = if depth == 3 {
                to_argb8(255, data[base], data[base + 1], data[base + 2])
            } else {
                to_argb8(data[base + 3], data[base], data[base + 1], data[base + 2])
            };
            pixels.push(pixel);
            id += 1;
        }
        Ok(Texture { width, height, data: pixels, depth })
    }

    /// The linear index of a texel position, for columns of `height` texels.
    fn coords_to_index(x: u128, y: u128, height: usize) -> (r: u128)
        requires
            x <= usize::MAX,
            y <= usize::MAX,
        ensures
            r == x * height + y,
    {
        proof {
            lemma_bounded_product(x as int, height as int, 0xffff_ffff_ffff_ffff);
        }
        x * (height as u128) + y
    }

    /// A wrapped coordinate scaled to `size` texels and rounded.
    fn scaled(coordinate: Fixed, size: usize) -> (r: u128)
        ensures
            r == texel_coordinate(coordinate.raw as int, size as int),
            r <= size,
    {
        let magnitude: u128 = if coordinate.raw < 0 {
            (-(coordinate.raw as i64)) as u128
        } else {
            coordinate.raw as u128
        };
        let wrapped: u128 = magnitude % 65536;
        proof {
            lemma_scale_order(wrapped as int, 65535, size as int);
            lemma_scale_order(0, wrapped as int, size as int);
        }
        (wrapped * (size as u128) + 32768) / 65536
    }

    /// The colour at texture coordinate `(u, v)`. Coordinates repeat with
    /// period one; a lookup outside the data gives [`MISSING_TEXEL`].
    pub fn argb_at_uv(&self, u: Fixed, v: Fixed) -> (r: u32)
        ensures
            r == self.sample_spec(u, v),
    {
        let x: u128 = Texture::scaled(u, self.width);
        let y: u128 = Texture::scaled(v, self.height);
        let id: u128 = Texture::coords_to_index(x, y, self.height);
        if id < self.data.len() as u128 {
            self.data[id as usize]
        } else {
            to_argb8(255, 255, 0, 255)
        }
    }
}

} // verus!
