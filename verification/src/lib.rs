//! A rotating cube drawn as coloured text.
//!
//! The library turns the six faces of a cube into grids of sample points,
//! rotates and projects each sample onto a character grid, keeps the nearest
//! sample of every cell with a depth buffer, and writes the grid out as the
//! bytes a terminal expects.  All arithmetic is exact integer arithmetic on
//! fixed-point values.

pub mod arith;
pub mod geometry;
pub mod depth;
pub mod kernel;
pub mod raster;
pub mod occlusion;
pub mod text;
pub mod animation;
pub mod delay;
