//! Counting the bytes, characters, words and lines of a byte sequence in one
//! forward pass, and rendering the selected counts as a line of text.

pub mod classify;
pub mod laws;
pub mod metrics;
pub mod render;

pub use metrics::FileMetrics;
