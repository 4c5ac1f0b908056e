//! A CPU-only triangle rasterizer over 16.16 fixed-point numbers.
//!
//! The pipeline takes a mesh of vertices, moves each triangle into clip
//! space, culls and clips it against the near plane, projects it to the
//! screen and shades every covered pixel that passes the depth test.
//!
//! * [`fixed`] and [`vector`] hold the numbers: saturating fixed-point
//!   scalars, vectors and matrices. [`arith`] holds the facts about integer
//!   products that the proofs are built from.
//! * [`color`], [`texture`] and [`mesh`] hold the data a draw reads.
//! * [`geometry`] culls and clips triangles in clip space.
//! * [`utils`] holds the edge function, barycentric weights, interpolation
//!   and a line plotter.
//! * [`shading`] holds the per-pixel colour functions and their context.
//! * [`raster`] projects, scans and depth-tests; [`frame`] is what it draws
//!   into.
//! * [`scene`] sets up and draws a small demo scene.
//!
//! Every function states what it returns over the raw integers of its
//! arguments, and the module of each stage proves the laws of that stage:
//! the sign of the edge function inside and outside a triangle, the
//! barycentric weights as a partition of one, exact depth for orthographic
//! triangles, the count and area of clipped triangles, and the order that
//! the depth test imposes.
pub mod arith;
pub mod fixed;
pub mod vector;
pub mod color;
pub mod utils;
pub mod mesh;
pub mod texture;
pub mod geometry;
pub mod frame;
pub mod shading;
pub mod raster;
pub mod scene;
