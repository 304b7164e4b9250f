//! Convolution-based feature detection on single-channel intensity images.
//!
//! Normalized samples are held exactly as integers counted in 255ths of the
//! full scale: the sample `u` of an 8-bit image stands for `u / 255`, and a
//! normalized value `n` stands for the real number `n / 255`. Every kernel
//! used here has integer weights, so convolution, edge detection and feature
//! detection are computed exactly.
pub mod codec;
pub mod convolve;
pub mod detect;
pub mod kernel;
pub mod raster;
