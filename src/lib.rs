//! Integer side of a small recursive ray tracer: the raster's dimensions,
//! the order in which its pixels are produced, and the plain-text pixmap
//! encoding of a finished image.
pub mod ppm;
pub mod raster;
pub mod trace;
