//! Fixed-point vectors of two, three and four components, and 4x4 matrices.
use crate::fixed::Fixed;
use crate::fixed::Linear;
use vstd::prelude::*;

verus! {

/// A point or direction in the plane: screen positions and texture coordinates.
#[derive(Clone, Copy, Debug, PartialEq, Eq, Structural)]
pub struct Vec2 {
    pub x: Fixed,
    pub y: Fixed,
}

impl Vec2 {
    pub fn new(x: Fixed, y: Fixed) -> (r: Vec2)
        ensures
            r.x == x,
            r.y == y,
    {
        Vec2 { x, y }
    }

    /// The vector of zeros.
    pub fn zero() -> (r: Vec2)
        ensures
            r.x.raw == 0,
            r.y.raw == 0,
    {
        Vec2 { x: Fixed::zero(), y: Fixed::zero() }
    }
}

impl Linear for Vec2 {
    open spec fn add_spec(self, rhs: Vec2) -> Vec2 {
        Vec2 { x: self.x.add_spec(rhs.x), y: self.y.add_spec(rhs.y) }
    }

    open spec fn sub_spec(self, rhs: Vec2) -> Vec2 {
        Vec2 { x: self.x.sub_spec(rhs.x), y: self.y.sub_spec(rhs.y) }
    }

    open spec fn mul_spec(self, rhs: Fixed) -> Vec2 {
        Vec2 { x: self.x.mul_spec(rhs), y: self.y.mul_spec(rhs) }
    }

    fn add(self, rhs: Vec2) -> (r: Vec2) {
        Vec2 { x: self.x.add(rhs.x), y: self.y.add(rhs.y) }
    }

    fn sub(self, rhs: Vec2) -> (r: Vec2) {
        Vec2 { x: self.x.sub(rhs.x), y: self.y.sub(rhs.y) }
    }

    fn mul(self, rhs: Fixed) -> (r: Vec2) {
        Vec2 { x: self.x.mul(rhs), y: self.y.mul(rhs) }
    }
}

/// Three components: colours, directions and barycentric weights.
#[derive(Clone, Copy, Debug, PartialEq, Eq, Structural)]
pub struct Vec3 {
    pub x: Fixed,
    pub y: Fixed,
    pub z: Fixed,
}

impl Vec3 {
    pub fn new(x: Fixed, y: Fixed, z: Fixed) -> (r: Vec3)
        ensures
            r.x == x,
            r.y == y,
            r.z == z,
    {
        Vec3 { x, y, z }
    }

    /// The vector of zeros.
    pub fn zero() -> (r: Vec3)
        ensures
            r.x.raw == 0,
            r.y.raw == 0,
            r.z.raw == 0,
    {
        Vec3 { x: Fixed::zero(), y: Fixed::zero(), z: Fixed::zero() }
    }
}

impl Linear for Vec3 {
    open spec fn add_spec(self, rhs: Vec3) -> Vec3 {
        Vec3 { x: self.x.add_spec(rhs.x), y: self.y.add_spec(rhs.y), z: self.z.add_spec(rhs.z) }
    }

    open spec fn sub_spec(self, rhs: Vec3) -> Vec3 {
        Vec3 { x: self.x.sub_spec(rhs.x), y: self.y.sub_spec(rhs.y), z: self.z.sub_spec(rhs.z) }
    }

    open spec fn mul_spec(self, rhs: Fixed) -> Vec3 {
        Vec3 { x: self.x.mul_spec(rhs), y: self.y.mul_spec(rhs), z: self.z.mul_spec(rhs) }
    }

    fn add(self, rhs: Vec3) -> (r: Vec3) {
        Vec3 { x: self.x.add(rhs.x), y: self.y.add(rhs.y), z: self.z.add(rhs.z) }
    }

    fn sub(self, rhs: Vec3) -> (r: Vec3) {
        Vec3 { x: self.x.sub(rhs.x), y: self.y.sub(rhs.y), z: self.z.sub(rhs.z) }
    }

    fn mul(self, rhs: Fixed) -> (r: Vec3) {
        Vec3 { x: self.x.mul(rhs), y: self.y.mul(rhs), z: self.z.mul(rhs) }
    }
}

/// A homogeneous position.
#[derive(Clone, Copy, Debug, PartialEq, Eq, Structural)]
pub struct Vec4 {
    pub x: Fixed,
    pub y: Fixed,
    pub z: Fixed,
    pub w: Fixed,
}

impl Vec4 {
    pub fn new(x: Fixed, y: Fixed, z: Fixed, w: Fixed) -> (r: Vec4)
        ensures
            r.x == x,
            r.y == y,
            r.z == z,
            r.w == w,
    {
        Vec4 { x, y, z, w }
    }

    /// The vector of zeros.
    pub fn zero() -> (r: Vec4)
        ensures
            r.x.raw == 0,
            r.y.raw == 0,
            r.z.raw == 0,
            r.w.raw == 0,
    {
        Vec4 { x: Fixed::zero(), y: Fixed::zero(), z: Fixed::zero(), w: Fixed::zero() }
    }
}

impl Linear for Vec4 {
    open spec fn add_spec(self, rhs: Vec4) -> Vec4 {
        Vec4 {
            x: self.x.add_spec(rhs.x),
            y: self.y.add_spec(rhs.y),
            z: self.z.add_spec(rhs.z),
            w: self.w.add_spec(rhs.w),
        }
    }

    open spec fn sub_spec(self, rhs: Vec4) -> Vec4 {
        Vec4 {
            x: self.x.sub_spec(rhs.x),
            y: self.y.sub_spec(rhs.y),
            z: self.z.sub_spec(rhs.z),
            w: self.w.sub_spec(rhs.w),
        }
    }

    open spec fn mul_spec(self, rhs: Fixed) -> Vec4 {
        Vec4 {
            x: self.x.mul_spec(rhs),
            y: self.y.mul_spec(rhs),
            z: self.z.mul_spec(rhs),
            w: self.w.mul_spec(rhs),
        }
    }

    fn add(self, rhs: Vec4) -> (r: Vec4) {
        Vec4 {
            x: self.x.add(rhs.x),
            y: self.y.add(rhs.y),
            z: self.z.add(rhs.z),
            w: self.w.add(rhs.w),
        }
    }

    fn sub(self, rhs: Vec4) -> (r: Vec4) {
        Vec4 {
            x: self.x.sub(rhs.x),
            y: self.y.sub(rhs.y),
            z: self.z.sub(rhs.z),
            w: self.w.sub(rhs.w),
        }
    }

    fn mul(self, rhs: Fixed) -> (r: Vec4) {
        Vec4 {
            x: self.x.mul(rhs),
            y: self.y.mul(rhs),
            z: self.z.mul(rhs),
            w: self.w.mul(rhs),
        }
    }
}

/// A 4x4 matrix, stored by columns.
#[derive(Clone, Copy, Debug, PartialEq, Eq, Structural)]
pub struct Mat4 {
    pub x_axis: Vec4,
    pub y_axis: Vec4,
    pub z_axis: Vec4,
    pub w_axis: Vec4,
}

impl Mat4 {
    /// The matrix applied to a homogeneous position: the columns weighted by
    /// the position's components and summed left to right.
    #[verifier::opaque]
    pub open spec fn mul_vec4_spec(self, v: Vec4) -> Vec4 {
        self.x_axis.mul_spec(v.x).add_spec(self.y_axis.mul_spec(v.y)).add_spec(
            self.z_axis.mul_spec(v.z),
        ).add_spec(self.w_axis.mul_spec(v.w))
    }

    /// The matrix product `self * rhs`: `self` applied to each column of `rhs`.
    pub open spec fn mul_mat4_spec(self, rhs: Mat4) -> Mat4 {
        Mat4 {
            x_axis: self.mul_vec4_spec(rhs.x_axis),
            y_axis: self.mul_vec4_spec(rhs.y_axis),
            z_axis: self.mul_vec4_spec(rhs.z_axis),
            w_axis: self.mul_vec4_spec(rhs.w_axis),
        }
    }

    /// The matrix that leaves every position unchanged.
    pub open spec fn identity_spec() -> Mat4 {
        let o = Fixed { raw: 65536 };
        let z = Fixed { raw: 0 };
        Mat4 {
            x_axis: Vec4 { x: o, y: z, z: z, w: z },
            y_axis: Vec4 { x: z, y: o, z: z, w: z },
            z_axis: Vec4 { x: z, y: z, z: o, w: z },
            w_axis: Vec4 { x: z, y: z, z: z, w: o },
        }
    }

    pub fn from_cols(x_axis: Vec4, y_axis: Vec4, z_axis: Vec4, w_axis: Vec4) -> (r: Mat4)
        ensures
            r == (Mat4 { x_axis, y_axis, z_axis, w_axis }),
    {
        Mat4 { x_axis, y_axis, z_axis, w_axis }
    }

    pub fn identity() -> (r: Mat4)
        ensures
            r == Mat4::identity_spec(),
    {
        let o: Fixed = Fixed::one();
        let z: Fixed = Fixed::zero();
        Mat4 {
            x_axis: Vec4 { x: o, y: z, z: z, w: z },
            y_axis: Vec4 { x: z, y: o, z: z, w: z },
            z_axis: Vec4 { x: z, y: z, z: o, w: z },
            w_axis: Vec4 { x: z, y: z, z: z, w: o },
        }
    }

    pub fn mul_vec4(&self, v: Vec4) -> (r: Vec4)
        ensures
            r == self.mul_vec4_spec(v),
    {
        proof {
            reveal(Mat4::mul_vec4_spec);
        }
        self.x_axis.mul(v.x).add(self.y_axis.mul(v.y)).add(self.z_axis.mul(v.z)).add(
            self.w_axis.mul(v.w),
        )
    }

    pub fn mul_mat4(&self, rhs: &Mat4) -> (r: Mat4)
        ensures
            r == self.mul_mat4_spec(*rhs),
    {
        Mat4 {
            x_axis: self.mul_vec4(rhs.x_axis),
            y_axis: self.mul_vec4(rhs.y_axis),
            z_axis: self.mul_vec4(rhs.z_axis),
            w_axis: self.mul_vec4(rhs.w_axis),
        }
    }
}

} // verus!
