//! Procedural image synthesis: a pixel buffer of byte-valued RGB channels,
//! a deterministic gradient-plus-fractal fill, and a uniform noise fill.

pub mod buffer;
pub mod fractal;
pub mod noise;

pub use buffer::AllocationError;
pub use buffer::PixelBuffer;
pub use buffer::Rgb;
pub use fractal::FractalConfig;
