//! Turns a text payload into a QR symbol and renders it either as an 8-bit
//! grayscale raster (one pixel per module) or as a block of text glyphs.

pub mod pipeline;
pub mod render;
pub mod symbol;

pub use pipeline::{generate, render, GenerateOptions, RenderTarget, Rendered, Source};
pub use symbol::{GenerateError, QrMatrix};
