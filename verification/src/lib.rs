//! Parsing of H.264 sequence parameter sets from their RBSP bytes.

pub mod bits;
pub mod rbsp;
pub mod nal;
pub mod context;

pub use context::Context;
