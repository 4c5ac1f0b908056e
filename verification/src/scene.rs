//! The demo scene: a floor and a sun, each a textured quad, and the draw of
//! one frame of it.
use crate::fixed::Fixed;
use crate::frame::new_depth_buffer;
use crate::frame::Frame;
use crate::frame::State;
use crate::mesh::uvec3_indices;
use crate::mesh::Mesh;
use crate::mesh::Vertex;
use crate::raster::draw_mesh_spec;
use crate::raster::Buffers;
use crate::raster::RenderMesh;
use crate::shading::time_passed_name;
use crate::shading::RenderState;
use crate::shading::ShadeFn;
use crate::shading::Shading;
use crate::color::Color;
use crate::texture::Texture;
use crate::vector::Mat4;
use crate::vector::Vec2;
use crate::vector::Vec3;
use crate::vector::Vec4;
use glam::UVec3;
use vstd::prelude::*;

verus! {

/// The clear colour a frame of the demo scene leaves behind: a dark purple.
pub const SCENE_CLEAR_COLOR: u32 = 0xff11_0012;

/// The vertex with whole-numbered attributes.
pub open spec fn whole_vertex(
    x: int,
    y: int,
    z: int,
    w: int,
    r: int,
    g: int,
    b: int,
    u: int,
    v: int,
) -> Vertex {
    Vertex {
        position: Vec4 {
            x: Fixed { raw: (x * 65536) as i32 },
            y: Fixed { raw: (y * 65536) as i32 },
            z: Fixed { raw: (z * 65536) as i32 },
            w: Fixed { raw: (w * 65536) as i32 },
        },
        color: Vec3 {
            x: Fixed { raw: (r * 65536) as i32 },
            y: Fixed { raw: (g * 65536) as i32 },
            z: Fixed { raw: (b * 65536) as i32 },
        },
        uv: Vec2 { x: Fixed { raw: (u * 65536) as i32 }, y: Fixed { raw: (v * 65536) as i32 } },
    }
}

/// The corners of the unit quad in the plane `z = 0`: red, green, blue and
/// magenta, with texture coordinates from `(0, 0)` to `(1, 1)`.
pub open spec fn quad_vertices() -> Seq<Vertex> {
    seq![
        whole_vertex(-1, -1, 0, 1, 1, 0, 0, 0, 0),
        whole_vertex(-1, 1, 0, 1, 0, 1, 0, 0, 1),
        whole_vertex(1, 1, 0, 1, 0, 0, 1, 1, 1),
        whole_vertex(1, -1, 0, 1, 1, 0, 1, 1, 0),
    ]
}

/// Whether `triangles` are the two triangles of the quad: the corners
/// 2, 1, 0 and the corners 3, 2, 0.
pub open spec fn are_quad_triangles(triangles: Seq<UVec3>) -> bool {
    &&& triangles.len() == 2
    &&& uvec3_indices(triangles[0]) == seq![2u32, 1u32, 0u32]
    &&& uvec3_indices(triangles[1]) == seq![3u32, 2u32, 0u32]
}

/// Whether a mesh is the quad under the given transform.
pub open spec fn is_quad(mesh: Mesh, transform: Mat4) -> bool {
    &&& mesh.vertices@ == quad_vertices()
    &&& are_quad_triangles(mesh.triangles@)
    &&& mesh.transform == transform
}

/// A depth buffer of `len` entries, all as far away as can be.
pub open spec fn fresh_depth(len: nat) -> Seq<Fixed> {
    Seq::new(len, |i: int| Fixed { raw: i32::MAX })
}

/// The viewport that spans a frame.
pub open spec fn frame_viewport(width: int, height: int) -> Vec2 {
    Vec2 { x: Fixed { raw: (width * 65536) as i32 }, y: Fixed { raw: (height * 65536) as i32 } }
}

/// What the shaders of the floor read: the second texture, the grid shader
/// and the time that has passed.
pub open spec fn grid_shading(state: State) -> Shading {
    Shading {
        texture: Some(state.textures@[1]),
        shade_fn: ShadeFn::Grid,
        clear_color: Color::unpacked(state.clear_color as int),
        uniforms: Map::<Seq<char>, Fixed>::empty().insert(time_passed_name(), state.time_passed),
    }
}

/// What the shaders of the sun read: the first texture and the texture
/// shader.
pub open spec fn sun_shading(state: State) -> Shading {
    Shading {
        texture: Some(state.textures@[0]),
        shade_fn: ShadeFn::Texture,
        clear_color: Color::unpacked(state.clear_color as int),
        uniforms: Map::<Seq<char>, Fixed>::empty(),
    }
}

/// The buffers after one frame of the scene was drawn over `pixels` with a
/// fresh depth buffer: the first mesh with the grid shader, then the second
/// with the texture shader.
pub open spec fn scene_spec(
    state: State,
    view_projection: Mat4,
    width: int,
    height: int,
    pixels: Seq<u32>,
) -> Buffers {
    let viewport = frame_viewport(width, height);
    let floor = draw_mesh_spec(
        &state.meshes@[0],
        state.meshes@[0].triangles@.len() as int,
        grid_shading(state),
        view_projection.mul_mat4_spec(state.meshes@[0].transform),
        viewport,
        height,
        Buffers { depth: fresh_depth(pixels.len()), pixels },
    );
    draw_mesh_spec(
        &state.meshes@[1],
        state.meshes@[1].triangles@.len() as int,
        sun_shading(state),
        view_projection.mul_mat4_spec(state.meshes@[1].transform),
        viewport,
        height,
        floor,
    )
}

/// A vertex with whole-numbered attributes.
fn vertex(x: i32, y: i32, z: i32, w: i32, r: i32, g: i32, b: i32, u: i32, v: i32) -> (out: Vertex)
    requires
        -2 <= x <= 2,
        -2 <= y <= 2,
        -2 <= z <= 2,
        -2 <= w <= 2,
        0 <= r <= 1,
        0 <= g <= 1,
        0 <= b <= 1,
        0 <= u <= 1,
        0 <= v <= 1,
    ensures
        out == whole_vertex(
            x as int,
            y as int,
            z as int,
            w as int,
            r as int,
            g as int,
            b as int,
            u as int,
            v as int,
        ),
{
    Vertex {
        position: Vec4 {
            x: Fixed::from_int(x),
            y: Fixed::from_int(y),
            z: Fixed::from_int(z),
            w: Fixed::from_int(w),
        },
        color: Vec3 { x: Fixed::from_int(r), y: Fixed::from_int(g), z: Fixed::from_int(b) },
        uv: Vec2 { x: Fixed::from_int(u), y: Fixed::from_int(v) },
    }
}

/// The unit quad as a mesh under the given transform.
pub fn quad_mesh(transform: Mat4) -> (mesh: Mesh)
    ensures
        is_quad(mesh, transform),
        mesh.wf(),
{
    let mut mesh = Mesh::new();
    let mut vertices: Vec<Vertex> = Vec::new();
    vertices.push(vertex(-1, -1, 0, 1, 1, 0, 0, 0, 0));
    vertices.push(vertex(-1, 1, 0, 1, 0, 1, 0, 0, 1));
    vertices.push(vertex(1, 1, 0, 1, 0, 0, 1, 1, 1));
    vertices.push(vertex(1, -1, 0, 1, 1, 0, 1, 1, 0));
    let mut indices: Vec<UVec3> = Vec::new();
    indices.push(UVec3::new(2, 1, 0));
    indices.push(UVec3::new(3, 2, 0));
    mesh.add_vertices(&mut indices, &mut vertices);
    mesh.transform = transform;
    assert(mesh.vertices@ =~= quad_vertices());
    mesh
}

/// Sets the scene up: takes the loaded textures, the sun's first and the
/// grid's second, and replaces the meshes by the floor and the sun, each a
/// quad under its transform. The next frame starts from a cleared screen.
pub fn setup(
    shared_state: &mut State,
    textures: Vec<Texture>,
    floor_transform: Mat4,
    sun_transform: Mat4,
)
    ensures
        final(shared_state).textures@ == textures@,
        final(shared_state).meshes@.len() == 2,
        is_quad(final(shared_state).meshes@[0], floor_transform),
        is_quad(final(shared_state).meshes@[1], sun_transform),
        final(shared_state).meshes@[0].wf(),
        final(shared_state).meshes@[1].wf(),
        final(shared_state).should_clear,
        final(shared_state).version == old(shared_state).version,
        final(shared_state).time_passed == old(shared_state).time_passed,
        final(shared_state).clear_color == old(shared_state).clear_color,
{
    shared_state.textures = textures;
    // Clear previous loaded meshes
    shared_state.meshes.clear();
    // Floor
    shared_state.meshes.push(quad_mesh(floor_transform));
    // Sun
    shared_state.meshes.push(quad_mesh(sun_transform));
    shared_state.should_clear = true;
}

/// The viewport that spans a frame.
fn viewport_of(frame: &Frame) -> (r: Vec2)
    requires
        frame.wf(),
    ensures
        r == frame_viewport(frame.width as int, frame.height as int),
{
    Vec2 { x: Fixed::from_int(frame.width as i32), y: Fixed::from_int(frame.height as i32) }
}

/// Draws one frame of the scene into `frame`, over what it holds, with a
/// fresh depth buffer: the floor with the scrolling grid, then the sun.
/// `view_projection` is the camera's projection matrix times its view
/// matrix. Afterwards the clear colour is [`SCENE_CLEAR_COLOR`].
#[verifier::rlimit(50)]
pub fn update(shared_state: &mut State, view_projection: &Mat4, view_dir: Vec3, frame: &mut Frame)
    requires
        old(shared_state).meshes@.len() >= 2,
        old(shared_state).textures@.len() >= 2,
        old(shared_state).meshes@[0].wf(),
        old(shared_state).meshes@[1].wf(),
        old(frame).wf(),
    ensures
        final(frame).wf(),
        final(frame).width == old(frame).width,
        final(frame).height == old(frame).height,
        final(frame).pixels@ == scene_spec(
            *old(shared_state),
            *view_projection,
            old(frame).width as int,
            old(frame).height as int,
            old(frame).pixels@,
        ).pixels,
        final(shared_state).clear_color == SCENE_CLEAR_COLOR,
        final(shared_state).version == old(shared_state).version,
        final(shared_state).time_passed == old(shared_state).time_passed,
        final(shared_state).meshes == old(shared_state).meshes,
        final(shared_state).textures == old(shared_state).textures,
        final(shared_state).should_clear == old(shared_state).should_clear,
{
    let mut z_buffer: Vec<Fixed> = new_depth_buffer(frame.width, frame.height);
    let viewport: Vec2 = viewport_of(frame);
    assert(z_buffer@ =~= fresh_depth(frame.pixels@.len()));
    let render_state_sun = RenderState::from_shade_fn(
        shared_state,
        ShadeFn::Texture,
        Some(&shared_state.textures[0]),
    );
    let mut render_state_grid = RenderState::from_shade_fn(
        shared_state,
        ShadeFn::Grid,
        Some(&shared_state.textures[1]),
    );
    render_state_grid.set_variable("time_passed".to_owned(), shared_state.time_passed);
    assert(render_state_grid@ == grid_shading(*shared_state));
    assert(render_state_sun@ == sun_shading(*shared_state));
    let grid_mesh = RenderMesh::from_mesh(&shared_state.meshes[0]);
    grid_mesh.draw_mesh(
        &render_state_grid,
        view_projection,
        view_dir,
        viewport,
        &mut z_buffer,
        frame,
    );
    let sun_mesh = RenderMesh::from_mesh(&shared_state.meshes[1]);
    sun_mesh.draw_mesh(&render_state_sun, view_projection, view_dir, viewport, &mut z_buffer, frame);
    shared_state.set_clear_color(SCENE_CLEAR_COLOR);
}

} // verus!
