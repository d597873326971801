//! Error kinds of the shadow pipeline.

use vstd::prelude::*;

verus! {

/// What went wrong while building a shadowed canvas.
#[derive(Debug)]
pub enum ShadowError {
    /// The caller-supplied dimensions or margins cannot describe a canvas:
    /// coordinate arithmetic would overflow, or the pixel buffer would not fit
    /// in memory. Raised before any pixel work starts.
    Configuration(String),
    /// A compositing invariant was violated: a strip or a paste region fell
    /// outside the canvas bounds. This signals a geometry failure, not a bad
    /// decode or encode.
    Processing(String),
}

pub type ShadowResult<T> = Result<T, ShadowError>;

impl ShadowError {
    /// A short human-readable account of the error.
    pub fn message(&self) -> String {
        match self {
            ShadowError::Configuration(msg) => msg.clone(),
            ShadowError::Processing(msg) => msg.clone(),
        }
    }
}

} // verus!
