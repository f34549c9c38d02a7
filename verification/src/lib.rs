//! Verified core of a terminal rasterizer: the character framebuffer with its
//! depth test, mesh assembly for the model loaders, the pixel span of a
//! triangle's bounding box and the input handling of the render loop.

pub mod cli;
pub mod controls;
pub mod float_bits;
pub mod framebuffer;
pub mod mesh;
pub mod raster;
