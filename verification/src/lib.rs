//! A software 3D rasterizer: scene state machine, camera and light setup,
//! pluggable shading stages, and a triangle rasterizer with depth testing and
//! perspective-correct attribute interpolation, all over fixed-point integer
//! arithmetic.

pub mod fp;
pub mod mesh;
pub mod raster;
pub mod scene;
pub mod shading;
pub mod texture;
