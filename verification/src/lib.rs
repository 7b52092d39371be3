//! Character-art rendering of grayscale images.
//!
//! A luminance sample is quantized to an index into a character ramp
//! ordered from darkest to lightest. An image is rendered either as text,
//! one doubled character per pixel, or as a raster in which every pixel
//! becomes a square cell holding the glyph of its character.

pub mod quantize;
pub mod raster;
pub mod decimal;
pub mod scale;
pub mod glyph;
pub mod text;
pub mod ascii;
