//! An image-transform pipeline engine: given raw encoded image bytes and an
//! ordered list of transform operations (crop, contrast, filter, flips,
//! resize, watermark), it produces a new encoded image reflecting all
//! operations applied in sequence.
//!
//! Every transform is specified against a mathematical raster model
//! (dimensions plus the flat RGBA8 sample sequence) and verified; the codec
//! boundary (PNG/JPEG encode and decode) wraps an outside image library
//! behind trusted contracts.

pub mod codec;
pub mod color;
pub mod crop;
pub mod engine;
pub mod flip;
pub mod kv;
pub mod ops;
pub mod raster;
pub mod resize;
pub mod seam;
pub mod watermark;
