//! The shading context of a draw call and the per-pixel colour functions.
//!
//! A shader receives the three vertices of a triangle with every attribute
//! already multiplied by the reciprocal of the vertex's `w`, the barycentric
//! weights of the pixel and the perspective correction at the pixel. It
//! blends the attributes by the weights and multiplies by the correction,
//! which undoes the earlier multiplication.
use crate::color::clamp_channel;
use crate::color::channel_from_fixed;
use crate::color::pack_argb;
use crate::color::to_argb8;
use crate::color::Color;
use crate::fixed::div_raw;
use crate::fixed::lerp_raw;
use crate::fixed::mul_raw;
use crate::fixed::saturate;
use crate::fixed::Fixed;
use crate::fixed::Linear;
use crate::frame::State;
use crate::mesh::Vertex;
use crate::texture::Texture;
use crate::utils::lerp;
use crate::vector::Vec2;
use crate::vector::Vec3;
use vstd::prelude::*;

verus! {

/// Raw integer of the value 255, the scale of a colour channel.
pub const CHANNEL_SCALE_RAW: i32 = 16711680;

/// Raw integer of the speed, in texture widths per unit of time, at which
/// the grid shader scrolls its texture: three tenths, rounded down.
pub const SCROLL_SPEED_RAW: i32 = 19660;

/// The per-pixel colour functions a draw call can choose from.
#[derive(Clone, Copy, Debug, PartialEq, Eq, Structural)]
pub enum ShadeFn {
    /// [`draw_texture`].
    Texture,
    /// [`draw_vertex_color`].
    VertexColor,
    /// [`draw_grid`].
    Grid,
}

/// A named scalar handed to the shaders of a draw call.
pub struct Uniform {
    pub name: String,
    pub value: Fixed,
}

/// The mapping a list of uniforms stands for: later entries replace earlier
/// ones of the same name.
pub open spec fn uniforms_map(vars: Seq<Uniform>) -> Map<Seq<char>, Fixed>
    decreases vars.len(),
{
    if vars.len() == 0 {
        Map::empty()
    } else {
        uniforms_map(vars.drop_last()).insert(vars.last().name@, vars.last().value)
    }
}

/// The name of the uniform the grid shader reads.
pub open spec fn time_passed_name() -> Seq<char> {
    "time_passed"@
}

/// Three values blended by barycentric weights, summed left to right.
pub open spec fn blend_spec<T: Linear>(a0: T, a1: T, a2: T, weights: Vec3) -> T {
    a0.mul_spec(weights.x).add_spec(a1.mul_spec(weights.y)).add_spec(a2.mul_spec(weights.z))
}

/// The 8-bit channel of a colour component in `0..1`: the component times
/// 255, rounded down and clamped.
pub open spec fn channel_spec(component: Fixed) -> int {
    clamp_channel(mul_raw(component.raw as int, 16711680) / 65536)
}

/// The packed opaque colour of a colour vector.
pub open spec fn pack_color_spec(c: Vec3) -> int {
    pack_argb(255, channel_spec(c.x), channel_spec(c.y), channel_spec(c.z))
}

/// The colour the vertex-colour shader gives.
pub open spec fn vertex_color_spec(
    v0: Vertex,
    v1: Vertex,
    v2: Vertex,
    weights: Vec3,
    correction: Fixed,
) -> int {
    pack_color_spec(blend_spec(v0.color, v1.color, v2.color, weights).mul_spec(correction))
}

/// The texture coordinate a shader samples at.
pub open spec fn tex_coords_spec(
    v0: Vertex,
    v1: Vertex,
    v2: Vertex,
    weights: Vec3,
    correction: Fixed,
) -> Vec2 {
    blend_spec(v0.uv, v1.uv, v2.uv, weights).mul_spec(correction)
}

/// One channel of a sample composited over the clear colour:
/// `clear + (sample - clear) * alpha`, with `alpha` the sample's alpha over
/// 255.
pub open spec fn composite_channel(clear: int, sample: int, alpha: int) -> int {
    clamp_channel(
        lerp_raw(saturate(clear * 65536), saturate(sample * 65536), div_raw(alpha, 255)) / 65536,
    )
}

/// A packed sample composited over the clear colour. The alpha channel of
/// the sample is kept.
pub open spec fn composite_spec(clear: Color, sample: u32) -> int {
    let c = Color::unpacked(sample as int);
    pack_argb(
        c.a as int,
        composite_channel(clear.r as int, c.r as int, c.a as int),
        composite_channel(clear.g as int, c.g as int, c.a as int),
        composite_channel(clear.b as int, c.b as int, c.a as int),
    )
}

/// What the shaders read of a render state: its view.
pub struct Shading {
    pub texture: Option<Texture>,
    pub shade_fn: ShadeFn,
    pub clear_color: Color,
    /// The uniforms, as a mapping from name to value.
    pub uniforms: Map<Seq<char>, Fixed>,
}

impl Shading {
    /// The value of the uniform `name`, or zero if there is none.
    pub open spec fn uniform_or_zero(self, name: Seq<char>) -> Fixed {
        if self.uniforms.contains_key(name) {
            self.uniforms[name]
        } else {
            Fixed { raw: 0 }
        }
    }

    /// The colour the texture shader gives.
    pub open spec fn texture_shade_spec(
        self,
        v0: Vertex,
        v1: Vertex,
        v2: Vertex,
        weights: Vec3,
        correction: Fixed,
    ) -> int {
        match self.texture {
            Some(texture) => {
                let uv = tex_coords_spec(v0, v1, v2, weights, correction);
                composite_spec(self.clear_color, texture.sample_spec(uv.x, uv.y))
            },
            None => vertex_color_spec(v0, v1, v2, weights, correction),
        }
    }

    /// The colour the grid shader gives: the texture shader's, sampled
    /// `time_passed` times the scroll speed further left.
    pub open spec fn grid_shade_spec(
        self,
        v0: Vertex,
        v1: Vertex,
        v2: Vertex,
        weights: Vec3,
        correction: Fixed,
    ) -> int {
        match self.texture {
            Some(texture) => {
                let uv = tex_coords_spec(v0, v1, v2, weights, correction);
                let shift = self.uniform_or_zero(time_passed_name()).mul_spec(
                    Fixed { raw: SCROLL_SPEED_RAW },
                );
                composite_spec(self.clear_color, texture.sample_spec(uv.x.sub_spec(shift), uv.y))
            },
            None => vertex_color_spec(v0, v1, v2, weights, correction),
        }
    }

    /// The colour the chosen shader gives.
    pub open spec fn shade_spec(
        self,
        v0: Vertex,
        v1: Vertex,
        v2: Vertex,
        weights: Vec3,
        correction: Fixed,
    ) -> int {
        match self.shade_fn {
            ShadeFn::Texture => self.texture_shade_spec(v0, v1, v2, weights, correction),
            ShadeFn::VertexColor => vertex_color_spec(v0, v1, v2, weights, correction),
            ShadeFn::Grid => self.grid_shade_spec(v0, v1, v2, weights, correction),
        }
    }
}

/// The shading context of one draw call.
pub struct RenderState<'a> {
    /// The texture sampled by the texture shaders; without one they fall
    /// back to vertex colours.
    pub texture: Option<&'a Texture>,
    pub shade_fn: ShadeFn,
    /// The colour texture samples are composited over.
    pub clear_color: Color,
    /// Named scalars for the shaders. Read them with
    /// [`RenderState::variable`], set them with [`RenderState::set_variable`].
    pub variables: Vec<Uniform>,
}

impl<'a> View for RenderState<'a> {
    type V = Shading;

    open spec fn view(&self) -> Shading {
        Shading {
            texture: self.texture_spec(),
            shade_fn: self.shade_fn,
            clear_color: self.clear_color,
            uniforms: self.uniforms(),
        }
    }
}

impl<'a> RenderState<'a> {
    /// The uniforms of this state, as a mapping from name to value.
    pub open spec fn uniforms(&self) -> Map<Seq<char>, Fixed> {
        uniforms_map(self.variables@)
    }

    /// The texture of this state, by value.
    pub open spec fn texture_spec(&self) -> Option<Texture> {
        match self.texture {
            Some(texture) => Some(*texture),
            None => None,
        }
    }

    /// A state that shades with `shade_fn`, takes its clear colour from the
    /// frame state and has no uniforms.
    pub fn from_shade_fn(shared: &'a State, shade_fn: ShadeFn, texture: Option<&'a Texture>) -> (r:
        RenderState<'a>)
        ensures
            r.texture == texture,
            r.shade_fn == shade_fn,
            r.clear_color == Color::unpacked(shared.clear_color as int),
            r.variables@.len() == 0,
            r.uniforms() == Map::<Seq<char>, Fixed>::empty(),
    {
        RenderState {
            texture,
            shade_fn,
            clear_color: Color::from_argb8(shared.clear_color),
            variables: Vec::new(),
        }
    }

    /// A state that shades with the texture shader.
    pub fn draw_texture(shared: &'a State, texture: Option<&'a Texture>) -> (r: RenderState<'a>)
        ensures
            r.texture == texture,
            r.shade_fn == ShadeFn::Texture,
            r.clear_color == Color::unpacked(shared.clear_color as int),
            r.variables@.len() == 0,
            r.uniforms() == Map::<Seq<char>, Fixed>::empty(),
    {
        RenderState {
            texture,
            shade_fn: ShadeFn::Texture,
            clear_color: Color::from_argb8(shared.clear_color),
            variables: Vec::new(),
        }
    }

    /// Sets the uniform `name` to `value`, replacing an earlier value.
    pub fn set_variable(&mut self, name: String, value: Fixed)
        ensures
            final(self).uniforms() == old(self).uniforms().insert(name@, value),
            final(self).texture == old(self).texture,
            final(self).shade_fn == old(self).shade_fn,
            final(self).clear_color == old(self).clear_color,
    {
        let ghost before = self.variables@;
        self.variables.push(Uniform { name, value });
        assert(self.variables@.drop_last() == before);
    }

    /// The value of the uniform `name`, if it was set.
    pub fn variable(&self, name: &String) -> (r: Option<Fixed>)
        ensures
            r == if self.uniforms().contains_key(name@) {
                Some(self.uniforms()[name@])
            } else {
                None
            },
    {
        let mut i: usize = self.variables.len();
        assert(self.variables@.take(i as int) == self.variables@);
        while i > 0
            invariant
                i <= self.variables@.len(),
                self.uniforms().contains_key(name@) == uniforms_map(
                    self.variables@.take(i as int),
                ).contains_key(name@),
                self.uniforms().contains_key(name@) ==> self.uniforms()[name@] == uniforms_map(
                    self.variables@.take(i as int),
                )[name@],
            decreases i,
        {
            i -= 1;
            proof {
                let longer = self.variables@.take(i + 1);
                assert(longer.drop_last() == self.variables@.take(i as int));
                assert(longer.last() == self.variables@[i as int]);
            }
            if self.variables[i].name == *name {
                return Some(self.variables[i].value);
            }
        }
        None
    }

    /// The colour of one pixel, by this state's shader.
    pub fn shade(
        &self,
        vertices: [&Vertex; 3],
        bary_centric: Vec3,
        correction: Fixed,
    ) -> (r: u32)
        ensures
            r == self@.shade_spec(
                *vertices[0],
                *vertices[1],
                *vertices[2],
                bary_centric,
                correction,
            ),
    {
        match self.shade_fn {
            ShadeFn::Texture => draw_texture(self, vertices, bary_centric, correction),
            ShadeFn::VertexColor => draw_vertex_color(self, vertices, bary_centric, correction),
            ShadeFn::Grid => draw_grid(self, vertices, bary_centric, correction),
        }
    }
}

/// Blends three values by barycentric weights.
pub fn blend<T: Linear + Copy>(a0: T, a1: T, a2: T, weights: Vec3) -> (r: T)
    ensures
        r == blend_spec(a0, a1, a2, weights),
{
    a0.mul(weights.x).add(a1.mul(weights.y)).add(a2.mul(weights.z))
}

/// The 8-bit channel of a colour component.
fn channel(component: Fixed) -> (r: u8)
    ensures
        r == channel_spec(component),
{
    channel_from_fixed(component.mul(Fixed::from_raw(CHANNEL_SCALE_RAW)))
}

/// One channel of a sample composited over the clear colour.
fn composite(clear: u8, sample: u8, alpha: Fixed) -> (r: u8)
    ensures
        r == clamp_channel(
            lerp_raw(
                saturate(clear as int * 65536),
                saturate(sample as int * 65536),
                alpha.raw as int,
            ) / 65536,
        ),
{
    channel_from_fixed(lerp(Fixed::from_int(clear as i32), Fixed::from_int(sample as i32), alpha))
}

/// A sample composited over the clear colour of `state`.
fn composite_sample(state: &RenderState, sample: u32) -> (r: u32)
    ensures
        r == composite_spec(state.clear_color, sample),
{
    let mut col: Color = Color::from_argb8(sample);
    let alpha: Fixed = Fixed::from_ratio(col.a as i32, 255);
    col.r = composite(state.clear_color.r, col.r, alpha);
    col.g = composite(state.clear_color.g, col.g, alpha);
    col.b = composite(state.clear_color.b, col.b, alpha);
    col.to_argb8()
}

/// The texture shader: samples the bound texture at the pixel's texture
/// coordinate and composites the sample over the clear colour by its alpha.
/// Without a texture it shades by vertex colour.
pub fn draw_texture(
    state: &RenderState,
    vertices: [&Vertex; 3],
    bary_centric: Vec3,
    correction: Fixed,
) -> (r: u32)
    ensures
        r == state@.texture_shade_spec(
            *vertices[0],
            *vertices[1],
            *vertices[2],
            bary_centric,
            correction,
        ),
{
    let v0 = vertices[0];
    let v1 = vertices[1];
    let v2 = vertices[2];
    match state.texture {
        Some(texture) => {
            let tex_coords: Vec2 = blend(v0.uv, v1.uv, v2.uv, bary_centric);
            let tex_coords: Vec2 = tex_coords.mul(correction);
            let col: u32 = texture.argb_at_uv(tex_coords.x, tex_coords.y);
            composite_sample(state, col)
        },
        None => draw_vertex_color(state, vertices, bary_centric, correction),
    }
}

/// The vertex-colour shader: the blended vertex colour, opaque.
pub fn draw_vertex_color(
    state: &RenderState,
    vertices: [&Vertex; 3],
    bary_centric: Vec3,
    correction: Fixed,
) -> (r: u32)
    ensures
        r == vertex_color_spec(*vertices[0], *vertices[1], *vertices[2], bary_centric, correction),
{
    let v0 = vertices[0];
    let v1 = vertices[1];
    let v2 = vertices[2];
    let vertex_color: Vec3 = blend(v0.color, v1.color, v2.color, bary_centric);
    let vertex_color: Vec3 = vertex_color.mul(correction);
    to_argb8(255, channel(vertex_color.x), channel(vertex_color.y), channel(vertex_color.z))
}

/// The grid shader: the texture shader with the texture scrolling to the
/// right as the uniform `time_passed` grows. A state without that uniform
/// shades as if it were zero.
pub fn draw_grid(
    state: &RenderState,
    vertices: [&Vertex; 3],
    bary_centric: Vec3,
    correction: Fixed,
) -> (r: u32)
    ensures
        r == state@.grid_shade_spec(
            *vertices[0],
            *vertices[1],
            *vertices[2],
            bary_centric,
            correction,
        ),
{
    let v0 = vertices[0];
    let v1 = vertices[1];
    let v2 = vertices[2];
    match state.texture {
        Some(texture) => {
            let tex_coords: Vec2 = blend(v0.uv, v1.uv, v2.uv, bary_centric);
            let mut tex_coords: Vec2 = tex_coords.mul(correction);
            let name: String = "time_passed".to_owned();
            let time_passed: Fixed = match state.variable(&name) {
                Some(value) => value,
                None => Fixed::zero(),
            };
            tex_coords.x = tex_coords.x.sub(time_passed.mul(Fixed::from_raw(SCROLL_SPEED_RAW)));
            let col: u32 = texture.argb_at_uv(tex_coords.x, tex_coords.y);
            composite_sample(state, col)
        },
        None => draw_vertex_color(state, vertices, bary_centric, correction),
    }
}

} // verus!
