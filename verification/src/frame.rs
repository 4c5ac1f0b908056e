//! The frame buffer pixels are written to, and the state shared by the
//! draws of one frame.
use crate::arith::lemma_cancel_strict_order;
use crate::arith::lemma_scale_order;
use crate::arith::lemma_spread_two;
use crate::arith::lemma_swap;
use crate::arith::lemma_zero_factor;
use crate::fixed::Fixed;
use crate::mesh::Mesh;
use crate::texture::Texture;
use vstd::arithmetic::div_mod::lemma_fundamental_div_mod;
use vstd::arithmetic::div_mod::lemma_fundamental_div_mod_converse;
use vstd::arithmetic::div_mod::lemma_mod_bound;
use vstd::prelude::*;

verus! {

/// The default frame width in pixels.
pub const WIDTH: usize = 600;

/// The default frame height in pixels.
pub const HEIGHT: usize = 600;

/// The largest width or height a frame can have: pixel centres must be
/// representable coordinates.
pub const MAX_DIMENSION: usize = 32767;

/// The linear index of pixel `(x, y)` in a frame of the given height.
/// Pixels are stored column by column.
pub open spec fn pixel_index(x: int, y: int, height: int) -> int {
    x * height + y
}

/// Different pixels of a frame have different indices, and every index
/// below `width * height` belongs to a pixel.
pub proof fn lemma_pixel_index(x: int, y: int, width: int, height: int)
    requires
        0 <= x < width,
        0 <= y < height,
    ensures
        0 <= pixel_index(x, y, height) < width * height,
        pixel_index(x, y, height) / height == x,
        pixel_index(x, y, height) % height == y,
        0 <= x * height <= pixel_index(x, y, height),
        width <= 32767 && height <= 32767 ==> width * height < 0x4000_0000,
{
    lemma_fundamental_div_mod_converse(x * height + y, height, x, y);
    lemma_scale_order(0, x, height);
    lemma_scale_order(x + 1, width, height);
    lemma_spread_two(height, x, 1);
    lemma_zero_factor(height);
    if width <= 32767 && height <= 32767 {
        lemma_area_bound(width, height);
    }
}

/// A frame whose sides are at most 32767 has fewer than 2^30 pixels.
pub proof fn lemma_area_bound(width: int, height: int)
    requires
        0 <= width <= 32767,
        0 <= height <= 32767,
    ensures
        0 <= width * height <= 32767 * 32767,
{
    lemma_scale_order(width, 32767, height);
    lemma_scale_order(0, width, height);
    lemma_zero_factor(height);
}

/// The pixel an index belongs to lies inside the frame.
pub proof fn lemma_index_pixel(i: int, width: int, height: int)
    requires
        0 <= i < width * height,
        0 < height,
    ensures
        0 <= i / height < width,
        0 <= i % height < height,
        pixel_index(i / height, i % height, height) == i,
{
    lemma_fundamental_div_mod(i, height);
    lemma_mod_bound(i, height);
    let q = i / height;
    lemma_swap(height, q);
    lemma_spread_two(height, q, 1);
    lemma_zero_factor(height);
    lemma_cancel_strict_order(0, q + 1, height);
    lemma_cancel_strict_order(q, width, height);
}

/// A rectangle of packed colours: where the rasterizer's pixels end up.
pub struct Frame {
    pub width: usize,
    pub height: usize,
    pub pixels: Vec<u32>,
}

impl Frame {
    /// The frame holds one colour per pixel, and its sides are short enough
    /// for pixel centres to be coordinates.
    pub open spec fn wf(&self) -> bool {
        &&& self.width <= MAX_DIMENSION
        &&& self.height <= MAX_DIMENSION
        &&& self.pixels@.len() == self.width * self.height
    }

    /// A frame of the given size, every pixel `color`. Each side is cut
    /// down to [`MAX_DIMENSION`].
    pub fn new(width: usize, height: usize, color: u32) -> (r: Frame)
        ensures
            r.wf(),
            r.width == if width <= MAX_DIMENSION { width } else { MAX_DIMENSION },
            r.height == if height <= MAX_DIMENSION { height } else { MAX_DIMENSION },
            forall|i: int| 0 <= i < r.pixels@.len() ==> r.pixels@[i] == color,
    {
        let w: usize = if width <= MAX_DIMENSION {
            width
        } else {
            MAX_DIMENSION
        };
        let h: usize = if height <= MAX_DIMENSION {
            height
        } else {
            MAX_DIMENSION
        };
        proof {
            lemma_area_bound(w as int, h as int);
        }
        let pixels: Vec<u32> = vec![color; w * h];
        Frame { width: w, height: h, pixels }
    }

    /// Whether the frame is well formed.
    pub fn is_valid(&self) -> (r: bool)
        ensures
            r == self.wf(),
    {
        if self.width > MAX_DIMENSION || self.height > MAX_DIMENSION {
            return false;
        }
        proof {
            lemma_area_bound(self.width as int, self.height as int);
        }
        self.pixels.len() == self.width * self.height
    }

    /// Writes one pixel. A position outside the frame is skipped.
    pub fn draw(&mut self, x: u16, y: u16, color: u32)
        requires
            old(self).wf(),
        ensures
            final(self).wf(),
            final(self).width == old(self).width,
            final(self).height == old(self).height,
            x < old(self).width && y < old(self).height ==> final(self).pixels@ == old(
                self,
            ).pixels@.update(pixel_index(x as int, y as int, old(self).height as int), color),
            !(x < old(self).width && y < old(self).height) ==> final(self).pixels@ == old(
                self,
            ).pixels@,
    {
        if (x as usize) < self.width && (y as usize) < self.height {
            proof {
                lemma_pixel_index(x as int, y as int, self.width as int, self.height as int);
            }
            let index: usize = x as usize * self.height + y as usize;
            self.pixels[index] = color;
        }
    }

    /// The colour of pixel `(x, y)`, or `None` outside the frame.
    pub fn pixel(&self, x: usize, y: usize) -> (r: Option<u32>)
        requires
            self.wf(),
        ensures
            r == if x < self.width && y < self.height {
                Some(self.pixels@[pixel_index(x as int, y as int, self.height as int)])
            } else {
                None
            },
    {
        if x < self.width && y < self.height {
            proof {
                lemma_pixel_index(x as int, y as int, self.width as int, self.height as int);
            }
            Some(self.pixels[x * self.height + y])
        } else {
            None
        }
    }

    /// Sets every pixel to `color`.
    pub fn clear(&mut self, color: u32)
        ensures
            final(self).width == old(self).width,
            final(self).height == old(self).height,
            final(self).pixels@.len() == old(self).pixels@.len(),
            forall|i: int| 0 <= i < final(self).pixels@.len() ==> final(self).pixels@[i] == color,
    {
        let n: usize = self.pixels.len();
        let mut i: usize = 0;
        while i < n
            invariant
                i <= n,
                n == self.pixels@.len(),
                self.width == old(self).width,
                self.height == old(self).height,
                forall|j: int| 0 <= j < i ==> self.pixels@[j] == color,
            decreases n - i,
        {
            self.pixels[i] = color;
            i += 1;
        }
    }
}

/// A depth buffer for a frame of the given size: every entry as far away
/// as a depth can be.
pub fn new_depth_buffer(width: usize, height: usize) -> (r: Vec<Fixed>)
    requires
        width <= MAX_DIMENSION,
        height <= MAX_DIMENSION,
    ensures
        r@.len() == width * height,
        forall|i: int| 0 <= i < r@.len() ==> r@[i].raw == i32::MAX,
{
    proof {
        lemma_area_bound(width as int, height as int);
    }
    vec![Fixed::max_value(); width * height]
}

/// What the draws of one frame share.
pub struct State {
    pub version: u32,
    pub time_passed: Fixed,
    pub meshes: Vec<Mesh>,
    pub textures: Vec<Texture>,
    pub should_clear: bool,
    pub clear_color: u32,
}

impl State {
    /// Writes one pixel of `frame`; a position outside the frame is skipped.
    pub fn draw(&self, frame: &mut Frame, x: u16, y: u16, color: u32)
        requires
            old(frame).wf(),
        ensures
            final(frame).wf(),
            final(frame).width == old(frame).width,
            final(frame).height == old(frame).height,
            x < old(frame).width && y < old(frame).height ==> final(frame).pixels@ == old(
                frame,
            ).pixels@.update(pixel_index(x as int, y as int, old(frame).height as int), color),
            !(x < old(frame).width && y < old(frame).height) ==> final(frame).pixels@ == old(
                frame,
            ).pixels@,
    {
        frame.draw(x, y, color);
    }

    pub fn set_clear_color(&mut self, color: u32)
        ensures
            final(self).clear_color == color,
            final(self).version == old(self).version,
            final(self).time_passed == old(self).time_passed,
            final(self).meshes == old(self).meshes,
            final(self).textures == old(self).textures,
            final(self).should_clear == old(self).should_clear,
    {
        self.clear_color = color;
    }
}

} // verus!
