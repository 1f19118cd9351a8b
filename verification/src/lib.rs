//! Stroke-based paintings that evolve toward a target raster: the genome, its
//! two generators, its rasterisation, its fitness and its genetic operators.

mod chance;
pub mod fitness;
pub mod generator;
pub mod operators;
pub mod painting;
pub mod raster;
pub mod render;
pub mod stroke;
