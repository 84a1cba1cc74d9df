//! The verified core of a software rasterizer: what it does on the pixel
//! grid and on the index buffer, proved with Verus.
//!
//! - [`structs`]: points and vectors, generic over the scalar;
//! - [`mesh`]: indexed triangle lists that are well formed by construction;
//! - [`canvas`]: the color buffer;
//! - [`depth`]: depth buffers and the depth test;
//! - [`raster`]: the part of the screen that a triangle can reach;
//! - [`line`]: straight lines and wireframes.
pub mod canvas;
pub mod depth;
pub mod line;
pub mod mesh;
pub mod raster;
pub mod structs;
