//! Discrete core of a recursive ray tracer: choosing the nearest surface
//! crossing, the checkerboard tiling of planes, the bound on mirror
//! recursion, and quantising computed colours into raster bytes.

pub mod checker;
pub mod hits;
pub mod raster;
pub mod reflection;
