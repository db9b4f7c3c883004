//! Verified core of a photo/video export pipeline.
//!
//! The library covers the logic of the pipeline: the job model, the work
//! partitioner, the per-item success accounting, the image/metadata byte
//! transformations, and the record grouping, filtering and parsing rules.
//! Filesystem traffic, thread spawning and JSON decoding live in the
//! surrounding application, which hands this library plain values.

pub mod args;
pub mod codec;
pub mod export;
pub mod filter;
pub mod group;
pub mod parser;
pub mod text;
pub mod time;
