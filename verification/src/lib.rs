//! Stroke-content export and rendering engine.
//!
//! Bundles a set of drawable stroke entities with an optional bounds override
//! and an optional background, resolves their aggregate bounding volume, and
//! renders them into a portable sequence of drawing commands with an optional
//! print-optimization policy.

pub mod color;
pub mod geometry;
pub mod strokecontent;
pub mod strokes;
pub mod utils;
