//! Pixel-buffer output for the path tracer: the plain-text PPM encoding of a
//! rendered frame, and the RGB image that the PNG encoder consumes.

pub mod ppm;
pub mod raster;

pub use ppm::{decimal_bytes, ppm_bytes};
pub use raster::{rgb_image, RgbFrame};
