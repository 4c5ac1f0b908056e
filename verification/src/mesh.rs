//! Vertices and indexed triangle meshes.
use crate::fixed::Fixed;
use crate::fixed::Linear;
use crate::vector::Mat4;
use crate::vector::Vec2;
use crate::vector::Vec3;
use crate::vector::Vec4;
use glam::UVec3;
use vstd::prelude::*;

verus! {

/// `glam::UVec3`, the three vertex indices of a triangle. The value is
/// opaque here; [`uvec3_indices`] names what it holds.
#[verifier::external_type_specification]
#[verifier::external_body]
pub struct ExUVec3(UVec3);

/// The three indices a `glam::UVec3` holds, in the order `x`, `y`, `z`.
pub uninterp spec fn uvec3_indices(triangle: UVec3) -> Seq<u32>;

/// `glam::UVec3::new` builds the vector that holds its three arguments, in
/// the order given.
pub assume_specification[ UVec3::new ](x: u32, y: u32, z: u32) -> (r: UVec3)
    ensures
        uvec3_indices(r) == seq![x, y, z],
;

/// `glam::UVec3::to_array` returns what the vector holds as `[x, y, z]`.
pub assume_specification[ UVec3::to_array ](v: &UVec3) -> (r: [u32; 3])
    ensures
        r@ == uvec3_indices(*v),
;

/// A corner of a triangle: a homogeneous position, a colour and a texture
/// coordinate. Vertices are plain values, copied freely.
#[derive(Clone, Copy, Debug, PartialEq, Eq, Structural)]
pub struct Vertex {
    pub position: Vec4,
    pub color: Vec3,
    pub uv: Vec2,
}

impl Linear for Vertex {
    open spec fn add_spec(self, rhs: Vertex) -> Vertex {
        Vertex {
            position: self.position.add_spec(rhs.position),
            color: self.color.add_spec(rhs.color),
            uv: self.uv.add_spec(rhs.uv),
        }
    }

    open spec fn sub_spec(self, rhs: Vertex) -> Vertex {
        Vertex {
            position: self.position.sub_spec(rhs.position),
            color: self.color.sub_spec(rhs.color),
            uv: self.uv.sub_spec(rhs.uv),
        }
    }

    open spec fn mul_spec(self, rhs: Fixed) -> Vertex {
        Vertex {
            position: self.position.mul_spec(rhs),
            color: self.color.mul_spec(rhs),
            uv: self.uv.mul_spec(rhs),
        }
    }

    fn add(self, rhs: Vertex) -> (r: Vertex) {
        let position = self.position.add(rhs.position);
        let color = self.color.add(rhs.color);
        let uv = self.uv.add(rhs.uv);
        Vertex { position, color, uv }
    }

    fn sub(self, rhs: Vertex) -> (r: Vertex) {
        let position = self.position.sub(rhs.position);
        let color = self.color.sub(rhs.color);
        let uv = self.uv.sub(rhs.uv);
        Vertex { position, color, uv }
    }

    fn mul(self, rhs: Fixed) -> (r: Vertex) {
        let position = self.position.mul(rhs);
        let color = self.color.mul(rhs);
        let uv = self.uv.mul(rhs);
        Vertex { position, color, uv }
    }
}

impl Vertex {
    /// Scales every attribute in place.
    pub fn mul_assign(&mut self, rhs: Fixed)
        ensures
            *final(self) == old(self).mul_spec(rhs),
    {
        let scaled = self.mul(rhs);
        *self = scaled;
    }
}

/// Whether the three indices of a triangle all lie below `count`.
pub open spec fn indices_below(triangle: UVec3, count: int) -> bool {
    &&& uvec3_indices(triangle).len() == 3
    &&& uvec3_indices(triangle)[0] < count
    &&& uvec3_indices(triangle)[1] < count
    &&& uvec3_indices(triangle)[2] < count
}

/// The vertex built from a loaded position and texture coordinate: the
/// position extended by `w = 1`, coloured white.
pub open spec fn loaded_vertex(position: Vec3, uv: Vec2) -> Vertex {
    Vertex {
        position: Vec4 { x: position.x, y: position.y, z: position.z, w: Fixed { raw: 65536 } },
        color: Vec3 { x: Fixed { raw: 65536 }, y: Fixed { raw: 65536 }, z: Fixed { raw: 65536 } },
        uv,
    }
}

/// Whether loaded buffers make a mesh: there is a texture coordinate for
/// every position, and every index of every whole triangle names a position.
/// Indices after the last whole triangle do not count.
pub open spec fn buffers_valid(positions: Seq<Vec3>, tex_coords: Seq<Vec2>, raw: Seq<u32>) -> bool {
    &&& tex_coords.len() >= positions.len()
    &&& forall|k: int| 0 <= k < (raw.len() as int / 3) * 3 ==> #[trigger] raw[k] < positions.len()
}

/// A pool of vertices, triangles that index into it, and the matrix that
/// takes the mesh from its own space into the world.
pub struct Mesh {
    pub triangles: Vec<UVec3>,
    pub vertices: Vec<Vertex>,
    pub transform: Mat4,
}

impl Mesh {
    /// Every index of every triangle names a vertex of the pool.
    pub open spec fn wf(&self) -> bool {
        forall|i: int|
            0 <= i < self.triangles@.len() ==> indices_below(
                #[trigger] self.triangles@[i],
                self.vertices@.len() as int,
            )
    }

    /// The empty mesh, untransformed.
    pub fn new() -> (r: Mesh)
        ensures
            r.triangles@.len() == 0,
            r.vertices@.len() == 0,
            r.transform == Mat4::identity_spec(),
            r.wf(),
    {
        Mesh { triangles: Vec::new(), vertices: Vec::new(), transform: Mat4::identity() }
    }

    pub fn triangles(&self) -> (r: &Vec<UVec3>)
        ensures
            r@ == self.triangles@,
    {
        &self.triangles
    }

    pub fn vertices(&self) -> (r: &Vec<Vertex>)
        ensures
            r@ == self.vertices@,
    {
        &self.vertices
    }

    /// The three vertices a triangle names, in the triangle's order.
    pub fn get_triangle_vertices(&self, triangle: UVec3) -> (r: [&Vertex; 3])
        requires
            indices_below(triangle, self.vertices@.len() as int),
        ensures
            *r[0] == self.vertices@[uvec3_indices(triangle)[0] as int],
            *r[1] == self.vertices@[uvec3_indices(triangle)[1] as int],
            *r[2] == self.vertices@[uvec3_indices(triangle)[2] as int],
    {
        let indices: [u32; 3] = triangle.to_array();
        [
            &self.vertices[indices[0] as usize],
            &self.vertices[indices[1] as usize],
            &self.vertices[indices[2] as usize],
        ]
    }

    /// Moves the given triangles and vertices to the end of the mesh, leaving
    /// both arguments empty. Indices are not shifted: they count from the
    /// start of the whole pool.
    pub fn add_vertices(&mut self, triangles: &mut Vec<UVec3>, vertices: &mut Vec<Vertex>)
        ensures
            final(self).triangles@ == old(self).triangles@ + old(triangles)@,
            final(self).vertices@ == old(self).vertices@ + old(vertices)@,
            final(self).transform == old(self).transform,
            final(triangles)@.len() == 0,
            final(vertices)@.len() == 0,
            old(self).wf() && (forall|i: int|
                0 <= i < old(triangles)@.len() ==> indices_below(
                    #[trigger] old(triangles)@[i],
                    (old(self).vertices@.len() + old(vertices)@.len()) as int,
                )) ==> final(self).wf(),
    {
        self.triangles.append(triangles);
        self.vertices.append(vertices);
    }

    /// Builds a mesh from the buffers of a loaded model: one vertex per
    /// position, and one triangle per three indices. Gives `None` when the
    /// buffers do not fit together (see [`buffers_valid`]).
    pub fn from_buffers(positions: &Vec<Vec3>, tex_coords: &Vec<Vec2>, raw_indices: &Vec<u32>) -> (r:
        Option<Mesh>)
        ensures
            r.is_some() == buffers_valid(positions@, tex_coords@, raw_indices@),
            r.is_some() ==> {
                let m = r.unwrap();
                &&& m.wf()
                &&& m.transform == Mat4::identity_spec()
                &&& m.vertices@.len() == positions@.len()
                &&& forall|i: int|
                    0 <= i < positions@.len() ==> #[trigger] m.vertices@[i] == loaded_vertex(
                        positions@[i],
                        tex_coords@[i],
                    )
                &&& m.triangles@.len() == raw_indices@.len() as int / 3
                &&& forall|j: int|
                    0 <= j < m.triangles@.len() ==> uvec3_indices(#[trigger] m.triangles@[j])
                        == seq![
                        raw_indices@[3 * j],
                        raw_indices@[3 * j + 1],
                        raw_indices@[3 * j + 2],
                    ]
            },
    {
        let count: usize = positions.len();
        if tex_coords.len() < count {
            return None;
        }
        let one: Fixed = Fixed::one();
        let mut vertices: Vec<Vertex> = Vec::new();
        let mut i: usize = 0;
        while i < count
            invariant
                count == positions@.len(),
                tex_coords@.len() >= count,
                i <= count,
                one.raw == 65536,
                vertices@.len() == i,
                forall|k: int|
                    0 <= k < i ==> #[trigger] vertices@[k] == loaded_vertex(
                        positions@[k],
                        tex_coords@[k],
                    ),
            decreases count - i,
        {
            let p: Vec3 = positions[i];
            vertices.push(
                Vertex {
                    position: Vec4 { x: p.x, y: p.y, z: p.z, w: one },
                    color: Vec3 { x: one, y: one, z: one },
                    uv: tex_coords[i],
                },
            );
            i += 1;
        }
        let faces: usize = raw_indices.len() / 3;
        let mut triangles: Vec<UVec3> = Vec::new();
        let mut j: usize = 0;
        while j < faces
            invariant
                count == positions@.len(),
                faces == raw_indices@.len() as int / 3,
                raw_indices@.len() <= usize::MAX,
                j <= faces,
                triangles@.len() == j,
                forall|k: int| 0 <= k < j * 3 ==> #[trigger] raw_indices@[k] < count,
                forall|k: int|
                    0 <= k < j ==> uvec3_indices(#[trigger] triangles@[k]) == seq![
                        raw_indices@[3 * k],
                        raw_indices@[3 * k + 1],
                        raw_indices@[3 * k + 2],
                    ],
            decreases faces - j,
        {
            let a: u32 = raw_indices[3 * j];
            let b: u32 = raw_indices[3 * j + 1];
            let c: u32 = raw_indices[3 * j + 2];
            if !(usize_of(a) < count && usize_of(b) < count && usize_of(c) < count) {
                assert(!buffers_valid(positions@, tex_coords@, raw_indices@)) by {
                    assert(3 * j + 2 < (raw_indices@.len() as int / 3) * 3);
                }
                return None;
            }
            triangles.push(UVec3::new(a, b, c));
            j += 1;
        }
        let mesh = Mesh { triangles, vertices, transform: Mat4::identity() };
        assert(mesh.wf()) by {
            assert forall|k: int| 0 <= k < mesh.triangles@.len() implies indices_below(
                #[trigger] mesh.triangles@[k],
                mesh.vertices@.len() as int,
            ) by {
                assert(raw_indices@[3 * k] < count);
                assert(raw_indices@[3 * k + 1] < count);
                assert(raw_indices@[3 * k + 2] < count);
            }
        }
        Some(mesh)
    }

    /// Checks that every triangle index names a vertex of the pool.
    pub fn is_valid(&self) -> (r: bool)
        ensures
            r == self.wf(),
    {
        let count: usize = self.vertices.len();
        let mut i: usize = 0;
        while i < self.triangles.len()
            invariant
                i <= self.triangles@.len(),
                count == self.vertices@.len(),
                forall|j: int|
                    0 <= j < i ==> indices_below(#[trigger] self.triangles@[j], count as int),
            decreases self.triangles@.len() - i,
        {
            let t: [u32; 3] = self.triangles[i].to_array();
            if !(usize_of(t[0]) < count && usize_of(t[1]) < count && usize_of(t[2]) < count) {
                assert(!indices_below(self.triangles@[i as int], count as int));
                return false;
            }
            i += 1;
        }
        true
    }
}

fn usize_of(index: u32) -> (r: usize)
    ensures
        r == index,
{
    index as usize
}

impl Default for Mesh {
    fn default() -> (r: Mesh)
        ensures
            r.triangles@.len() == 0,
            r.vertices@.len() == 0,
            r.transform == Mat4::identity_spec(),
    {
        Mesh::new()
    }
}

} // verus!
