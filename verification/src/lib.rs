//! Cropping, rounded-rectangle masking and resizing of RGBA images, together
//! with the bookkeeping of a batch export over many images.
//!
//! The library holds the pixel geometry and the decisions of an export run.
//! Reading and writing files is left to the caller, which hands in decoded
//! pixels and reports back how each write went.

pub mod batch;
pub mod error;
pub mod listing;
pub mod mask;
pub mod naming;
pub mod pixels;
pub mod transform;
