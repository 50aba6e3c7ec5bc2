//! Integer core of an offline path tracer: bitmap lookup for image
//! textures, the static interleaved partition of pixels among render
//! workers, the Perlin lattice permutations, checker parity and the buffer
//! bookkeeping of the rasterizer.

pub mod perlin;
pub mod raster;
pub mod render;
pub mod rtw_image;
pub mod rtweekend;
pub mod texture;
