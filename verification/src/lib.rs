//! A drop-shadow effect for RGBA bitmaps.
//!
//! The library enlarges a bitmap's canvas by a margin, paints an opaque
//! shadow silhouette behind the image, softens the shadow's edges with two
//! blurred strips (each reused, rotated 180 degrees, for the opposite edge),
//! and composites the original image back on top.
//!
//! Blurring itself is left to the caller: `strips` hands out the two exact
//! edge strips to blur, and `generate_shadowed` takes the blurred strips back
//! and assembles the final canvas.

pub mod bitmap;
pub mod error;
pub mod shadow;

pub use error::ShadowError;
pub use error::ShadowResult;
pub use shadow::Config;
