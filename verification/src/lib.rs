//! A matrix-multiplication engine built around a map/reduce task protocol:
//! one task per output cell, a static `index mod workers` partition, and a
//! reduce phase that writes each reply into its own slot of the result.
//! The library also provides two thread-safe counter maps used as progress
//! sinks by the surrounding tooling.

pub mod amap;
pub mod error;
pub mod matrix;
pub mod metrics;
pub mod text;
pub mod vector;

pub use amap::AmapMetrics;
pub use error::MatmulError;
pub use matrix::{multiply, Matrix, MsgInput, MsgOutput};
pub use metrics::Metrics;
pub use vector::{dot_product, Vector};
