//! A verified core for a music-metadata correction pipeline: a metadata
//! record, a lenient parser that extracts field edits from free-form model
//! text, a serializable suggestions report with a deterministic apply step,
//! and a collision-safe output-path allocator.
pub mod agent;
pub mod codec;
pub mod error;
pub mod metadata;
pub mod num;
pub mod parser;
pub mod paths;
pub mod suggestions;
pub mod text;
